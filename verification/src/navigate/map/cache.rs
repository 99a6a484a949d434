//! The feature cache of a map floor: the checks a loaded cache must pass,
//! and the key point records of the prebuilt feature files.

use vstd::prelude::*;

verus! {

/// The cache format this library reads and writes.
pub const CACHE_VERSION: u32 = 2;

/// Why a loaded cache was refused.
#[derive(Debug, Clone, Copy, PartialEq, Eq, Structural)]
pub enum CacheProblem {
    /// The cache was written in another format version.
    VersionMismatch { got: u32 },
    /// The descriptors are not one row per key point.
    DescriptorLength,
}

/// Whether a cache with this version, number of key points, descriptor
/// width and descriptor byte count is refused, and why: the version first,
/// then the descriptor length.
pub open spec fn cache_problem_spec(version: u32, keypoints: nat, desc_cols: u32, descriptors: nat) -> Option<CacheProblem> {
    if version != CACHE_VERSION {
        Some(CacheProblem::VersionMismatch { got: version })
    } else if descriptors != keypoints * desc_cols {
        Some(CacheProblem::DescriptorLength)
    } else {
        None
    }
}

/// Check a loaded cache (see [`cache_problem_spec`]).
pub fn check_layer_cache(version: u32, keypoints: usize, desc_cols: u32, descriptors: usize) -> (r: Result<(), CacheProblem>)
    ensures
        match r {
            Ok(()) => cache_problem_spec(version, keypoints as nat, desc_cols, descriptors as nat) is None,
            Err(p) => cache_problem_spec(version, keypoints as nat, desc_cols, descriptors as nat) == Some(p),
        },
{
    if version != CACHE_VERSION {
        return Err(CacheProblem::VersionMismatch { got: version });
    }
    let k = keypoints as u128;
    let c = desc_cols as u128;
    assert(k * c <= 0xffff_ffff_ffff_ffff * 0xffff_ffff) by (nonlinear_arith)
        requires
            k <= 0xffff_ffff_ffff_ffff,
            c <= 0xffff_ffff,
    ;
    let expected = k * c;
    if descriptors as u128 != expected {
        return Err(CacheProblem::DescriptorLength);
    }
    Ok(())
}

/// A key point record of a prebuilt feature file, its floating-point fields
/// kept as their bit patterns.
#[derive(Debug, Clone, Copy, PartialEq, Eq, Structural)]
pub struct KeyPointBits {
    pub x: u32,
    pub y: u32,
    pub size: u32,
    pub angle: u32,
    pub response: u32,
    pub octave: i32,
    pub class_id: i32,
}

/// The length of a key point record in bytes.
pub const KEYPOINT_RECORD_LEN: usize = 28;

/// The little-endian 32-bit word at `off` in `b`.
pub open spec fn le_word(b: Seq<u8>, off: int) -> u32 {
    (b[off] + b[off + 1] * 0x100 + b[off + 2] * 0x1_0000 + b[off + 3] * 0x100_0000) as u32
}

/// The key point record at `off` in `b`: seven little-endian words.
pub open spec fn keypoint_at(b: Seq<u8>, off: int) -> KeyPointBits {
    KeyPointBits {
        x: le_word(b, off),
        y: le_word(b, off + 4),
        size: le_word(b, off + 8),
        angle: le_word(b, off + 12),
        response: le_word(b, off + 16),
        octave: le_word(b, off + 20) as i32,
        class_id: le_word(b, off + 24) as i32,
    }
}

/// A prebuilt key point file whose length is not a whole number of records.
#[derive(Debug, Clone, Copy, PartialEq, Eq, Structural)]
pub struct RaggedKeypointFile {
    pub len: usize,
}

/// The little-endian 32-bit word at `off` in `b`.
fn read_le_word(b: &[u8], off: usize) -> (w: u32)
    requires
        off + 4 <= b@.len(),
    ensures
        w == le_word(b@, off as int),
{
    (b[off] as u32) + (b[off + 1] as u32) * 0x100 + (b[off + 2] as u32) * 0x1_0000 + (b[off + 3] as u32)
        * 0x100_0000
}

/// The key point records of a prebuilt feature file, in order; refused
/// where its length is not a multiple of the record length. Each word is read
/// little-endian. The files are written in the byte order of the machine that
/// builds them; on the little-endian machines the tool runs on (x86, ARM) the
/// two agree.
pub fn decode_keypoints(bytes: &[u8]) -> (r: Result<Vec<KeyPointBits>, RaggedKeypointFile>)
    ensures
        match r {
            Ok(v) => bytes@.len() % 28 == 0 && v@.len() == bytes@.len() / 28 && forall|i: int|
                0 <= i < v@.len() ==> #[trigger] v@[i] == keypoint_at(bytes@, 28 * i),
            Err(e) => bytes@.len() % 28 != 0 && e.len == bytes@.len(),
        },
{
    let n = bytes.len();
    if n % KEYPOINT_RECORD_LEN != 0 {
        return Err(RaggedKeypointFile { len: n });
    }
    let count = n / KEYPOINT_RECORD_LEN;
    let mut out: Vec<KeyPointBits> = Vec::new();
    let mut i: usize = 0;
    while i < count
        invariant
            n == bytes@.len(),
            count == n / 28,
            n % 28 == 0,
            0 <= i <= count,
            out@.len() == i,
            forall|k: int| 0 <= k < i ==> #[trigger] out@[k] == keypoint_at(bytes@, 28 * k),
        decreases count - i,
    {
        let start = i * KEYPOINT_RECORD_LEN;
        assert(start + 28 <= n) by (nonlinear_arith)
            requires
                start == i * 28,
                i < count,
                count == n / 28,
                n % 28 == 0,
        ;
        let kp = KeyPointBits {
            x: read_le_word(bytes, start),
            y: read_le_word(bytes, start + 4),
            size: read_le_word(bytes, start + 8),
            angle: read_le_word(bytes, start + 12),
            response: read_le_word(bytes, start + 16),
            octave: read_le_word(bytes, start + 20) as i32,
            class_id: read_le_word(bytes, start + 24) as i32,
        };
        out.push(kp);
        i = i + 1;
    }
    Ok(out)
}

/// Whether a cache file read for the floor `floor` of map `scene` is the
/// one it claims to be.
pub fn cache_matches_floor(cache_scene: &str, cache_floor: i32, scene: &str, floor: i32) -> (r: bool)
    ensures
        r == (cache_scene@ == scene@ && cache_floor == floor),
{
    crate::text::str_eq(cache_scene, scene) && cache_floor == floor
}

} // verus!
