//! The header and extension data of a route file, with the defaults a missing
//! field takes, and the byte-order mark that may precede the file's text.

use vstd::prelude::*;

verus! {

broadcast use vstd::string::group_string_axioms;

/// The header of a route file.
pub struct PathInfo {
    pub name: String,
    /// The `type` field.
    pub task_type: String,
    pub author: String,
    pub version: String,
    pub description: String,
    /// The map the route runs on; a file without one runs on `Teyvat`.
    pub map_name: String,
    pub map_match_method: String,
    pub bgi_version: String,
    pub tags: Vec<String>,
    pub last_modified_time: i64,
}

/// Whether every text field of a header is empty, it has no tags and its time is zero.
pub open spec fn is_blank_path_info(p: PathInfo) -> bool {
    &&& p.name@.len() == 0
    &&& p.task_type@.len() == 0
    &&& p.author@.len() == 0
    &&& p.version@.len() == 0
    &&& p.description@.len() == 0
    &&& p.map_name@.len() == 0
    &&& p.map_match_method@.len() == 0
    &&& p.bgi_version@.len() == 0
    &&& p.tags@.len() == 0
    &&& p.last_modified_time == 0
}

impl Default for PathInfo {
    /// A header with every field empty; the map name too is empty here, and
    /// a route runs such a header on the default map.
    fn default() -> (p: Self)
        ensures
            is_blank_path_info(p),
    {
        PathInfo {
            name: String::new(),
            task_type: String::new(),
            author: String::new(),
            version: String::new(),
            description: String::new(),
            map_name: String::new(),
            map_match_method: String::new(),
            bgi_version: String::new(),
            tags: Vec::new(),
            last_modified_time: 0,
        }
    }
}

/// The map a header without a map name runs on.
pub open spec fn default_map_name_spec() -> Seq<char> {
    "Teyvat"@
}

/// The map name a route file gets when it names none.
pub fn default_map_name() -> (s: String)
    ensures
        s@ == default_map_name_spec(),
{
    "Teyvat".to_string()
}

/// The map a route runs on: its own map name, or the default map where that is empty.
pub open spec fn effective_map_name_spec(map_name: Seq<char>) -> Seq<char> {
    if map_name.len() == 0 {
        default_map_name_spec()
    } else {
        map_name
    }
}

/// The map a route with this header runs on.
pub fn effective_map_name(info: &PathInfo) -> (s: String)
    ensures
        s@ == effective_map_name_spec(info.map_name@),
{
    if info.map_name.as_str().is_empty() {
        default_map_name()
    } else {
        info.map_name.clone()
    }
}

/// The waypoint type code a waypoint without one has.
pub open spec fn default_type_spec() -> Seq<char> {
    "path"@
}

/// The waypoint type code a waypoint gets when it has none.
pub fn default_type() -> (s: String)
    ensures
        s@ == default_type_spec(),
{
    "path".to_string()
}

/// The movement mode code a waypoint without one has.
pub open spec fn default_move_mode_spec() -> Seq<char> {
    "walk"@
}

/// The movement mode code a waypoint gets when it has none.
pub fn default_move_mode() -> (s: String)
    ensures
        s@ == default_move_mode_spec(),
{
    "walk".to_string()
}

/// The misidentification kind handled when a waypoint names none.
pub open spec fn unrecognized_kind() -> Seq<char> {
    "unrecognized"@
}

/// The misidentification kinds a waypoint gets when it names none: only `unrecognized`.
pub fn default_mis_type() -> (v: Vec<String>)
    ensures
        v@.len() == 1,
        v@[0]@ == unrecognized_kind(),
{
    let mut v: Vec<String> = Vec::new();
    v.push("unrecognized".to_string());
    v
}

/// The handling mode used when a waypoint names none.
pub open spec fn default_handling_mode_spec() -> Seq<char> {
    "previousDetectedPoint"@
}

/// The handling mode a waypoint gets when it names none.
pub fn default_handling_mode() -> (s: String)
    ensures
        s@ == default_handling_mode_spec(),
{
    "previousDetectedPoint".to_string()
}

/// How a waypoint handles a position that cannot be recognised or lies too far away.
pub struct Misidentification {
    /// The `type` field: which situations are handled.
    pub kinds: Vec<String>,
    pub handling_mode: String,
    pub arrival_time: i32,
}

impl Default for Misidentification {
    /// Handle unrecognised positions by going back to the previous detected point.
    fn default() -> (m: Self)
        ensures
            m.kinds@.len() == 1,
            m.kinds@[0]@ == unrecognized_kind(),
            m.handling_mode@ == default_handling_mode_spec(),
            m.arrival_time == 0,
    {
        Misidentification {
            kinds: default_mis_type(),
            handling_mode: default_handling_mode(),
            arrival_time: 0,
        }
    }
}

/// Extension parameters of a waypoint.
pub struct ExtParams {
    pub misidentification: Option<Misidentification>,
    pub description: String,
    pub monster_tags: Option<String>,
    pub enable_monser_loot_split: bool,
}

impl Default for ExtParams {
    /// No misidentification handling, no description, no tags, no split.
    fn default() -> (e: Self)
        ensures
            e.misidentification is None,
            e.description@.len() == 0,
            e.monster_tags is None,
            !e.enable_monser_loot_split,
    {
        ExtParams {
            misidentification: None,
            description: String::new(),
            monster_tags: None,
            enable_monser_loot_split: false,
        }
    }
}

/// The UTF-8 byte-order mark.
pub open spec fn utf8_bom() -> Seq<u8> {
    seq![0xEFu8, 0xBBu8, 0xBFu8]
}

/// The bytes of a file without the byte-order mark that may open it.
pub open spec fn without_bom(b: Seq<u8>) -> Seq<u8> {
    if b.len() >= 3 && b.subrange(0, 3) == utf8_bom() {
        b.subrange(3, b.len() as int)
    } else {
        b
    }
}

/// Drop a leading UTF-8 byte-order mark; other bytes are returned as they are.
pub fn strip_bom(b: &[u8]) -> (r: &[u8])
    ensures
        r@ == without_bom(b@),
{
    if b.len() >= 3 && b[0] == 0xEFu8 && b[1] == 0xBBu8 && b[2] == 0xBFu8 {
        proof {
            assert(b@.subrange(0, 3) =~= utf8_bom());
        }
        let (_, rest) = b.split_at(3);
        rest
    } else {
        proof {
            if b@.len() >= 3 && b@.subrange(0, 3) == utf8_bom() {
                assert(b@[0] == b@.subrange(0, 3)[0]);
                assert(b@[1] == b@.subrange(0, 3)[1]);
                assert(b@[2] == b@.subrange(0, 3)[2]);
            }
        }
        b
    }
}

} // verus!
