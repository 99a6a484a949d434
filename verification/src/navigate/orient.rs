//! Camera direction from the minimap, fallback method: the integer steps
//! after the peaks of the unrolled minimap edges have been found.
//!
//! Peaks of the horizontal gradient, one list for rising and one for
//! falling edges, are folded into 360 one-degree bins. Each degree's rising
//! excess is multiplied with the falling excess about 90 degrees further on,
//! weighted 3:2:1 over offsets of 0, 1 and 2 degrees; the products are then
//! smoothed with the same weights. The best smoothed score plus 45 degrees is
//! the camera direction. The weights 1, 2/3, 1/3 of the method are written
//! here as 3, 2, 1: both scores are scaled by a constant, which leaves the
//! best degree unchanged.

use vstd::prelude::*;

verus! {

/// `k` brought into `0..n`.
pub open spec fn mod_n(k: int, n: int) -> int {
    k % n
}

/// `arr` rotated right by `k` places (left for a negative `k`).
pub open spec fn rotated(arr: Seq<i32>, k: int) -> Seq<i32> {
    let n = arr.len() as int;
    if n == 0 {
        arr
    } else {
        let split = n - k % n;
        arr.subrange(split, n) + arr.subrange(0, split)
    }
}

/// `arr` rotated right by `k` places (left for a negative `k`).
pub fn shift(arr: &[i32], k: i32) -> (out: Vec<i32>)
    requires
        arr@.len() <= 0x4000_0000,
    ensures
        out@ == rotated(arr@, k as int),
{
    let n = arr.len() as i32;
    if n == 0 {
        return Vec::new();
    }
    let kk = match k.checked_rem_euclid(n) {
        Some(r) => r,
        None => 0,
    };
    let split = (n - kk) as usize;
    let mut out: Vec<i32> = Vec::new();
    let mut i = split;
    while i < arr.len()
        invariant
            split <= i <= arr@.len(),
            out@ == arr@.subrange(split as int, i as int),
        decreases arr@.len() - i,
    {
        out.push(arr[i]);
        i = i + 1;
    }
    let mut j: usize = 0;
    while j < split
        invariant
            split <= arr@.len(),
            0 <= j <= split,
            out@ == arr@.subrange(split as int, arr@.len() as int) + arr@.subrange(0, j as int),
        decreases split - j,
    {
        out.push(arr[j]);
        j = j + 1;
    }
    out
}

/// How many peaks fall into degree `d` (their position modulo 360).
pub open spec fn peak_count(peaks: Seq<usize>, d: int) -> int
    decreases peaks.len(),
{
    if peaks.len() == 0 {
        0
    } else {
        peak_count(peaks.drop_last(), d) + if peaks.last() % 360 == d {
            1int
        } else {
            0int
        }
    }
}

/// By how much rising edges outnumber falling ones at degree `d` (zero if not).
pub open spec fn rising_excess(left: Seq<usize>, right: Seq<usize>, d: int) -> int {
    let v = peak_count(left, d) - peak_count(right, d);
    if v > 0 { v } else { 0 }
}

/// By how much falling edges outnumber rising ones at degree `d` (zero if not).
pub open spec fn falling_excess(left: Seq<usize>, right: Seq<usize>, d: int) -> int {
    let v = peak_count(right, d) - peak_count(left, d);
    if v > 0 { v } else { 0 }
}

/// The weight of an offset of `i` degrees, for `-2 <= i <= 2`: 3, 2 or 1.
pub open spec fn weight(i: int) -> int {
    3 - if i < 0 { -i } else { i }
}

/// The rising excess at degree `j` times the falling excess at `j + 90 - i`.
pub open spec fn excess_product(left: Seq<usize>, right: Seq<usize>, j: int, i: int) -> int {
    rising_excess(left, right, j) * falling_excess(left, right, (j + 90 - i) % 360)
}

/// The weighted products of degree `j` within two degrees of a quarter turn:
/// the sum over `i` in `-2..=2` of `weight(i) * excess_product(j, i)`.
#[verifier::opaque]
pub open spec fn quarter_score(left: Seq<usize>, right: Seq<usize>, j: int) -> int {
    weight(-2) * excess_product(left, right, j, -2) + weight(-1) * excess_product(left, right, j, -1)
        + weight(0) * excess_product(left, right, j, 0) + weight(1) * excess_product(left, right, j, 1)
        + weight(2) * excess_product(left, right, j, 2)
}

/// The score of degree `d`: the sum over `i` in `-2..=2` of
/// `weight(i) * quarter_score(d - i)`, degrees taken modulo 360.
pub open spec fn degree_score(left: Seq<usize>, right: Seq<usize>, d: int) -> int {
    weight(-2) * quarter_score(left, right, (d + 2) % 360) + weight(-1) * quarter_score(left, right, (d + 1) % 360)
        + weight(0) * quarter_score(left, right, d) + weight(1) * quarter_score(left, right, (d - 1) % 360)
        + weight(2) * quarter_score(left, right, (d - 2) % 360)
}

/// `best` is the last degree with the highest score.
pub open spec fn is_last_best_degree(left: Seq<usize>, right: Seq<usize>, best: int) -> bool {
    &&& 0 <= best < 360
    &&& forall|d: int| 0 <= d < 360 ==> degree_score(left, right, d) <= degree_score(left, right, best)
    &&& forall|d: int| best < d < 360 ==> degree_score(left, right, d) < degree_score(left, right, best)
}

/// The camera direction in degrees for the best degree `best`.
pub open spec fn angle_of_best(best: int) -> int {
    if best + 45 > 360 { best + 45 - 360 } else { best + 45 }
}

/// A degree holds no more peaks than there are.
proof fn lemma_peak_count_bounds(peaks: Seq<usize>, d: int)
    ensures
        0 <= peak_count(peaks, d) <= peaks.len(),
    decreases peaks.len(),
{
    if peaks.len() > 0 {
        lemma_peak_count_bounds(peaks.drop_last(), d);
    }
}

/// Counts the peaks of each degree.
fn histogram(peaks: &Vec<usize>) -> (h: Vec<i32>)
    requires
        peaks@.len() <= i32::MAX,
    ensures
        h@.len() == 360,
        forall|d: int| 0 <= d < 360 ==> #[trigger] h@[d] == peak_count(peaks@, d),
        forall|d: int| 0 <= d < 360 ==> 0 <= #[trigger] h@[d] <= peaks@.len(),
{
    let mut h: Vec<i32> = Vec::new();
    while h.len() < 360
        invariant
            h@.len() <= 360,
            forall|d: int| 0 <= d < h@.len() ==> #[trigger] h@[d] == 0,
        decreases 360 - h@.len(),
    {
        h.push(0);
    }
    let mut i: usize = 0;
    while i < peaks.len()
        invariant
            peaks@.len() <= i32::MAX,
            0 <= i <= peaks@.len(),
            h@.len() == 360,
            forall|d: int| 0 <= d < 360 ==> #[trigger] h@[d] == peak_count(peaks@.take(i as int), d),
        decreases peaks@.len() - i,
    {
        let b = peaks[i] % 360;
        assert(peaks@.take(i + 1).drop_last() =~= peaks@.take(i as int));
        proof {
            lemma_peak_count_bounds(peaks@.take(i as int), b as int);
        }
        h.set(b, h[b] + 1);
        i = i + 1;
    }
    assert(peaks@.take(i as int) =~= peaks@);
    assert forall|d: int| 0 <= d < 360 implies 0 <= #[trigger] h@[d] <= peaks@.len() by {
        lemma_peak_count_bounds(peaks@, d);
    }
    h
}

/// The rising excess (`rise`) and falling excess (`fall`) of every degree.
fn excesses(left: &Vec<usize>, right: &Vec<usize>) -> (r: (Vec<i128>, Vec<i128>))
    requires
        left@.len() <= i32::MAX,
        right@.len() <= i32::MAX,
    ensures
        r.0@.len() == 360,
        r.1@.len() == 360,
        forall|j: int| 0 <= j < 360 ==> #[trigger] r.0@[j] == rising_excess(left@, right@, j),
        forall|j: int| 0 <= j < 360 ==> #[trigger] r.1@[j] == falling_excess(left@, right@, j),
        forall|j: int| 0 <= j < 360 ==> 0 <= #[trigger] r.0@[j] <= i32::MAX,
        forall|j: int| 0 <= j < 360 ==> 0 <= #[trigger] r.1@[j] <= i32::MAX,
{
    let lh = histogram(left);
    let rh = histogram(right);
    let mut rise: Vec<i128> = Vec::new();
    let mut fall: Vec<i128> = Vec::new();
    let mut j: usize = 0;
    while j < 360
        invariant
            0 <= j <= 360,
            lh@.len() == 360,
            rh@.len() == 360,
            forall|k: int| 0 <= k < 360 ==> #[trigger] lh@[k] == peak_count(left@, k),
            forall|k: int| 0 <= k < 360 ==> #[trigger] rh@[k] == peak_count(right@, k),
            forall|k: int| 0 <= k < 360 ==> 0 <= #[trigger] lh@[k] <= left@.len(),
            forall|k: int| 0 <= k < 360 ==> 0 <= #[trigger] rh@[k] <= right@.len(),
            left@.len() <= i32::MAX,
            right@.len() <= i32::MAX,
            rise@.len() == j,
            fall@.len() == j,
            forall|k: int| 0 <= k < j ==> #[trigger] rise@[k] == rising_excess(left@, right@, k),
            forall|k: int| 0 <= k < j ==> #[trigger] fall@[k] == falling_excess(left@, right@, k),
            forall|k: int| 0 <= k < j ==> 0 <= #[trigger] rise@[k] <= i32::MAX,
            forall|k: int| 0 <= k < j ==> 0 <= #[trigger] fall@[k] <= i32::MAX,
        decreases 360 - j,
    {
        let l = lh[j] as i128;
        let r = rh[j] as i128;
        rise.push(if l > r { l - r } else { 0 });
        fall.push(if r > l { r - l } else { 0 });
        j = j + 1;
    }
    (rise, fall)
}

/// `quarter_score` of every degree.
fn quarter_scores(left: &Vec<usize>, right: &Vec<usize>, rise: &Vec<i128>, fall: &Vec<i128>) -> (q: Vec<i128>)
    requires
        rise@.len() == 360,
        fall@.len() == 360,
        forall|j: int| 0 <= j < 360 ==> #[trigger] rise@[j] == rising_excess(left@, right@, j),
        forall|j: int| 0 <= j < 360 ==> #[trigger] fall@[j] == falling_excess(left@, right@, j),
        forall|j: int| 0 <= j < 360 ==> 0 <= #[trigger] rise@[j] <= i32::MAX,
        forall|j: int| 0 <= j < 360 ==> 0 <= #[trigger] fall@[j] <= i32::MAX,
    ensures
        q@.len() == 360,
        forall|j: int| 0 <= j < 360 ==> #[trigger] q@[j] == quarter_score(left@, right@, j),
        forall|j: int| 0 <= j < 360 ==> 0 <= #[trigger] q@[j] <= 0x4_0000_0000_0000_0000,
{
    let mut q: Vec<i128> = Vec::new();
    let mut j: usize = 0;
    while j < 360
        invariant
            0 <= j <= 360,
            rise@.len() == 360,
            fall@.len() == 360,
            forall|k: int| 0 <= k < 360 ==> #[trigger] rise@[k] == rising_excess(left@, right@, k),
            forall|k: int| 0 <= k < 360 ==> #[trigger] fall@[k] == falling_excess(left@, right@, k),
            forall|k: int| 0 <= k < 360 ==> 0 <= #[trigger] rise@[k] <= i32::MAX,
            forall|k: int| 0 <= k < 360 ==> 0 <= #[trigger] fall@[k] <= i32::MAX,
            q@.len() == j,
            forall|k: int| 0 <= k < j ==> #[trigger] q@[k] == quarter_score(left@, right@, k),
            forall|k: int| 0 <= k < j ==> 0 <= #[trigger] q@[k] <= 0x4_0000_0000_0000_0000,
        decreases 360 - j,
    {
        let a = rise[j];
        let b2 = fall[(j + 92) % 360];
        let b1 = fall[(j + 91) % 360];
        let b0 = fall[(j + 90) % 360];
        let c1 = fall[(j + 89) % 360];
        let c2 = fall[(j + 88) % 360];
        proof {
            assert(0 <= a * b2 <= 0x4000_0000_0000_0000) by (nonlinear_arith)
                requires 0 <= a <= i32::MAX, 0 <= b2 <= i32::MAX;
            assert(0 <= a * b1 <= 0x4000_0000_0000_0000) by (nonlinear_arith)
                requires 0 <= a <= i32::MAX, 0 <= b1 <= i32::MAX;
            assert(0 <= a * b0 <= 0x4000_0000_0000_0000) by (nonlinear_arith)
                requires 0 <= a <= i32::MAX, 0 <= b0 <= i32::MAX;
            assert(0 <= a * c1 <= 0x4000_0000_0000_0000) by (nonlinear_arith)
                requires 0 <= a <= i32::MAX, 0 <= c1 <= i32::MAX;
            assert(0 <= a * c2 <= 0x4000_0000_0000_0000) by (nonlinear_arith)
                requires 0 <= a <= i32::MAX, 0 <= c2 <= i32::MAX;
            assert((j + 92) % 360 == (j + 90 - (-2)) % 360);
            assert((j + 91) % 360 == (j + 90 - (-1)) % 360);
            assert((j + 89) % 360 == (j + 90 - 1) % 360);
            assert((j + 88) % 360 == (j + 90 - 2) % 360);
        }
        let v = a * b2 + 2 * (a * b1) + 3 * (a * b0) + 2 * (a * c1) + a * c2;
        proof {
            reveal(quarter_score);
            let jj = j as int;
            assert(a == rising_excess(left@, right@, jj));
            assert(b2 == falling_excess(left@, right@, (jj + 90 - (-2)) % 360));
            assert(b1 == falling_excess(left@, right@, (jj + 90 - (-1)) % 360));
            assert(b0 == falling_excess(left@, right@, (jj + 90 - 0) % 360));
            assert(c1 == falling_excess(left@, right@, (jj + 90 - 1) % 360));
            assert(c2 == falling_excess(left@, right@, (jj + 90 - 2) % 360));
            assert(a * b2 == excess_product(left@, right@, jj, -2));
            assert(a * b1 == excess_product(left@, right@, jj, -1));
            assert(a * b0 == excess_product(left@, right@, jj, 0));
            assert(a * c1 == excess_product(left@, right@, jj, 1));
            assert(a * c2 == excess_product(left@, right@, jj, 2));
            assert(weight(-2) == 1 && weight(-1) == 2 && weight(0) == 3 && weight(1) == 2 && weight(2) == 1);
            assert(v == quarter_score(left@, right@, jj));
        }
        q.push(v);
        j = j + 1;
    }
    q
}

/// The camera direction, in degrees, from the positions of the rising
/// (`left`) and falling (`right`) edge peaks.
pub fn angle_from_peaks(left: &Vec<usize>, right: &Vec<usize>) -> (angle: i32)
    requires
        left@.len() <= i32::MAX,
        right@.len() <= i32::MAX,
    ensures
        exists|best: int| is_last_best_degree(left@, right@, best) && angle == angle_of_best(best),
{
    let (rise, fall) = excesses(left, right);
    let q = quarter_scores(left, right, &rise, &fall);
    let mut best: usize = 0;
    let mut best_score: i128 = 0;
    let mut d: usize = 0;
    while d < 360
        invariant
            q@.len() == 360,
            forall|k: int| 0 <= k < 360 ==> #[trigger] q@[k] == quarter_score(left@, right@, k),
            forall|k: int| 0 <= k < 360 ==> 0 <= #[trigger] q@[k] <= 0x4_0000_0000_0000_0000,
            0 <= d <= 360,
            d > 0 ==> 0 <= best < d,
            d > 0 ==> best_score == degree_score(left@, right@, best as int),
            forall|j: int| 0 <= j < d ==> degree_score(left@, right@, j) <= best_score,
            forall|j: int| best < j < d ==> degree_score(left@, right@, j) < best_score,
        decreases 360 - d,
    {
        proof {
            assert((d + 359) % 360 == (d - 1) % 360);
            assert((d + 358) % 360 == (d - 2) % 360);
        }
        let q2 = q[(d + 2) % 360];
        let q1 = q[(d + 1) % 360];
        let q0 = q[d];
        let p1 = q[(d + 359) % 360];
        let p2 = q[(d + 358) % 360];
        let score = q2 + 2 * q1 + 3 * q0 + 2 * p1 + p2;
        proof {
            let dd = d as int;
            assert(q2 == quarter_score(left@, right@, (dd + 2) % 360));
            assert(q1 == quarter_score(left@, right@, (dd + 1) % 360));
            assert(q0 == quarter_score(left@, right@, dd));
            assert(p1 == quarter_score(left@, right@, (dd - 1) % 360));
            assert(p2 == quarter_score(left@, right@, (dd - 2) % 360));
            assert(weight(-2) == 1 && weight(-1) == 2 && weight(0) == 3 && weight(1) == 2 && weight(2) == 1);
        }
        assert(score == degree_score(left@, right@, d as int));
        if d == 0 || score >= best_score {
            best = d;
            best_score = score;
        }
        d = d + 1;
    }
    let angle = if best as i32 + 45 > 360 {
        best as i32 + 45 - 360
    } else {
        best as i32 + 45
    };
    assert(is_last_best_degree(left@, right@, best as int));
    assert(angle == angle_of_best(best as int));
    angle
}

} // verus!
