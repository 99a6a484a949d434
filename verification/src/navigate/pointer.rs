//! The character's direction from the arrow on the minimap: which contour
//! is the arrow, and which of its edges faces backwards. A line is walked
//! from the middle of an edge to the opposite corner; the first edge whose
//! walk starts on black pixels of the arrow mask gives the direction, from
//! that midpoint to that corner.

use vstd::prelude::*;

use crate::geom::Rect;
use crate::navigate::map::splits::trunc_div;

verus! {

/// A pixel position as a pair of integers.
pub open spec fn pt(p: (i32, i32)) -> (int, int) {
    (p.0 as int, p.1 as int)
}

/// `|v|`.
pub open spec fn abs_int(v: int) -> int {
    if v < 0 {
        -v
    } else {
        v
    }
}

/// Whether `(x, y)` lies in a `w` by `h` mask.
pub open spec fn in_mask(w: int, h: int, x: int, y: int) -> bool {
    0 <= x < w && 0 <= y < h
}

/// The mask value at `(x, y)`, rows stored one after another.
pub open spec fn mask_at(mask: Seq<u8>, w: int, x: int, y: int) -> u8 {
    mask[y * w + x]
}

/// One step of the line walk: from `(x, y)` with error `err`, towards a
/// point `dx` across and `dy` down in the directions `sx`, `sy`.
pub open spec fn walk_step(x: int, y: int, err: int, dx: int, dy: int, sx: int, sy: int) -> (int, int, int) {
    let e2 = err * 2;
    let x1 = if e2 > -dy { x + sx } else { x };
    let err1 = if e2 > -dy { err - dy } else { err };
    let y1 = if e2 < dx { y + sy } else { y };
    let err2 = if e2 < dx { err1 + dx } else { err1 };
    (x1, y1, err2)
}

/// How far `(x, y)` is from `(bx, by)`, in steps along the axes.
pub open spec fn walk_dist(x: int, y: int, bx: int, by: int) -> nat {
    (abs_int(bx - x) + abs_int(by - y)) as nat
}

/// How many pixels the walk from `(x, y)` to `(bx, by)` crosses before it
/// leaves the mask, reaches a white pixel, or passes its end.
pub open spec fn black_run(
    mask: Seq<u8>,
    w: int,
    h: int,
    x: int,
    y: int,
    bx: int,
    by: int,
    err: int,
    dx: int,
    dy: int,
    sx: int,
    sy: int,
) -> int
    decreases walk_dist(x, y, bx, by),
{
    if !in_mask(w, h, x, y) {
        0
    } else if mask_at(mask, w, x, y) == 255 {
        0
    } else if x == bx && y == by {
        1
    } else {
        let (x1, y1, e1) = walk_step(x, y, err, dx, dy, sx, sy);
        if walk_dist(x1, y1, bx, by) < walk_dist(x, y, bx, by) {
            1 + black_run(mask, w, h, x1, y1, bx, by, e1, dx, dy, sx, sy)
        } else {
            1
        }
    }
}

/// How many pixels of the line from `a` to `b` are crossed, from `a` on,
/// before the line leaves the mask, reaches a white (255) pixel, or ends.
pub open spec fn leading_black(mask: Seq<u8>, w: int, h: int, a: (int, int), b: (int, int)) -> int {
    let dx = abs_int(b.0 - a.0);
    let dy = abs_int(b.1 - a.1);
    let sx: int = if a.0 < b.0 { 1 } else { -1 };
    let sy: int = if a.1 < b.1 { 1 } else { -1 };
    black_run(mask, w, h, a.0, a.1, b.0, b.1, dx - dy, dx, dy, sx, sy)
}

/// The line walk never leaves the box spanned by its ends, and each step gets closer.
proof fn lemma_walk_step(x0: int, y0: int, xs: int, ys: int, err: int, dx: int, dy: int, sx: int, sy: int)
    requires
        dx >= 0,
        dy >= 0,
        sx == 1 || sx == -1,
        sy == 1 || sy == -1,
        0 <= xs <= dx,
        0 <= ys <= dy,
        !(xs == dx && ys == dy),
        err == dx - dy - dy * xs + dx * ys,
    ensures
        ({
            let (x1, y1, e1) = walk_step(x0 + sx * xs, y0 + sy * ys, err, dx, dy, sx, sy);
            let xs1 = if err * 2 > -dy { xs + 1 } else { xs };
            let ys1 = if err * 2 < dx { ys + 1 } else { ys };
            &&& x1 == x0 + sx * xs1
            &&& y1 == y0 + sy * ys1
            &&& 0 <= xs1 <= dx
            &&& 0 <= ys1 <= dy
            &&& xs1 + ys1 > xs + ys
            &&& e1 == dx - dy - dy * xs1 + dx * ys1
        }),
{
    let e2 = err * 2;
    if xs == dx {
        assert(ys < dy);
        assert(dx * (dy - ys) >= dx) by (nonlinear_arith)
            requires
                dy - ys >= 1,
                dx >= 0,
        ;
        assert(err == dx - dy - dx * (dy - ys)) by (nonlinear_arith)
            requires
                err == dx - dy - dy * xs + dx * ys,
                xs == dx,
        ;
        assert(!(e2 > -dy));
    }
    if ys == dy {
        assert(xs < dx);
        assert(dy * (dx - xs) >= dy) by (nonlinear_arith)
            requires
                dx - xs >= 1,
                dy >= 0,
        ;
        assert(err == dx - dy + dy * (dx - xs)) by (nonlinear_arith)
            requires
                err == dx - dy - dy * xs + dx * ys,
                ys == dy,
        ;
        assert(!(e2 < dx));
    }
    if !(e2 > -dy) && !(e2 < dx) {
        assert(dx == 0 && dy == 0);
    }
    assert(sx * (xs + 1) == sx * xs + sx) by (nonlinear_arith);
    assert(sy * (ys + 1) == sy * ys + sy) by (nonlinear_arith);
    assert(dy * (xs + 1) == dy * xs + dy) by (nonlinear_arith);
    assert(dx * (ys + 1) == dx * ys + dx) by (nonlinear_arith);
}

/// The distance to the end of the walk, once `xs` of `dx` steps across and
/// `ys` of `dy` steps down are taken.
proof fn lemma_walk_dist(x0: int, y0: int, xs: int, ys: int, dx: int, dy: int, sx: int, sy: int, bx: int, by: int)
    requires
        dx >= 0,
        dy >= 0,
        sx == 1 || sx == -1,
        sy == 1 || sy == -1,
        0 <= xs <= dx,
        0 <= ys <= dy,
        bx == x0 + sx * dx,
        by == y0 + sy * dy,
    ensures
        walk_dist(x0 + sx * xs, y0 + sy * ys, bx, by) == (dx - xs) + (dy - ys),
{
    assert(bx - (x0 + sx * xs) == sx * (dx - xs)) by (nonlinear_arith)
        requires
            bx == x0 + sx * dx,
    ;
    assert(by - (y0 + sy * ys) == sy * (dy - ys)) by (nonlinear_arith)
        requires
            by == y0 + sy * dy,
    ;
    assert(abs_int(sx * (dx - xs)) == dx - xs) by (nonlinear_arith)
        requires
            sx == 1 || sx == -1,
            dx - xs >= 0,
    ;
    assert(abs_int(sy * (dy - ys)) == dy - ys) by (nonlinear_arith)
        requires
            sy == 1 || sy == -1,
            dy - ys >= 0,
    ;
}

/// The number of pixels of the line from `a` to `b`, from `a` on, crossed
/// before the line leaves the `w` by `h` mask, reaches a white (255) pixel,
/// or ends (see [`leading_black`]).
pub fn count_leading_black(mask: &Vec<u8>, w: i32, h: i32, a: (i32, i32), b: (i32, i32)) -> (n: i32)
    requires
        w >= 0,
        h >= 0,
        mask@.len() == w * h,
        w + h <= i32::MAX,
    ensures
        n == leading_black(mask@, w as int, h as int, pt(a), pt(b)),
{
    let ax = a.0 as i64;
    let ay = a.1 as i64;
    let bx = b.0 as i64;
    let by = b.1 as i64;
    let dx: i64 = if bx > ax { bx - ax } else { ax - bx };
    let dy: i64 = if by > ay { by - ay } else { ay - by };
    let sx: i64 = if ax < bx { 1 } else { -1 };
    let sy: i64 = if ay < by { 1 } else { -1 };
    let mut err: i64 = dx - dy;
    let mut x: i64 = ax;
    let mut y: i64 = ay;
    let mut count: i32 = 0;
    let len = mask.len();
    let ghost total = leading_black(mask@, w as int, h as int, pt(a), pt(b));
    let ghost mut xs: int = 0;
    let ghost mut ys: int = 0;
    proof {
        assert(bx == ax + sx * dx) by (nonlinear_arith)
            requires
                sx == (if ax < bx { 1int } else { -1int }),
                dx == (if bx > ax { bx - ax } else { ax - bx }),
        ;
        assert(by == ay + sy * dy) by (nonlinear_arith)
            requires
                sy == (if ay < by { 1int } else { -1int }),
                dy == (if by > ay { by - ay } else { ay - by }),
        ;
    }
    loop
        invariant_except_break
            w >= 0,
            h >= 0,
            mask@.len() == w * h,
            len == mask@.len(),
            w + h <= i32::MAX,
            dx == abs_int(b.0 - a.0),
            dy == abs_int(b.1 - a.1),
            sx == (if a.0 < b.0 { 1int } else { -1int }),
            sy == (if a.1 < b.1 { 1int } else { -1int }),
            ax == a.0,
            ay == a.1,
            bx == b.0,
            by == b.1,
            bx == ax + sx * dx,
            by == ay + sy * dy,
            0 <= xs <= dx,
            0 <= ys <= dy,
            x == ax + sx * xs,
            y == ay + sy * ys,
            err == dx - dy - dy * xs + dx * ys,
            -2 * dy <= err <= 2 * dx,
            count >= 0,
            total == count + black_run(mask@, w as int, h as int, x as int, y as int, bx as int, by as int, err as int, dx as int, dy as int, sx as int, sy as int),
            count == 0 ==> xs == 0 && ys == 0,
            count > 0 ==> in_mask(w as int, h as int, ax as int, ay as int) && count <= xs + ys,
        ensures
            count == total,
        decreases (dx - xs) + (dy - ys),
    {
        if x < 0 || y < 0 || x >= w as i64 || y >= h as i64 {
            break;
        }
        proof {
            assert(0 <= y * w <= y * w + x < w * h) by (nonlinear_arith)
                requires
                    0 <= x < w,
                    0 <= y < h,
            ;
        }
        let row = (y as usize) * (w as usize);
        let idx = row + (x as usize);
        if mask[idx] == 255 {
            break;
        }
        proof {
            if count > 0 {
                assert(0 <= xs <= w - 1) by {
                    assert(abs_int(x - ax) == xs) by (nonlinear_arith)
                        requires
                            x == ax + sx * xs,
                            sx == 1 || sx == -1,
                            xs >= 0,
                    ;
                }
                assert(0 <= ys <= h - 1) by {
                    assert(abs_int(y - ay) == ys) by (nonlinear_arith)
                        requires
                            y == ay + sy * ys,
                            sy == 1 || sy == -1,
                            ys >= 0,
                    ;
                }
            }
        }
        count = count + 1;
        if x == bx && y == by {
            break;
        }
        proof {
            lemma_walk_dist(ax as int, ay as int, xs, ys, dx as int, dy as int, sx as int, sy as int, bx as int, by as int);
            if xs == dx && ys == dy {
                assert(x == bx && y == by);
            }
            lemma_walk_step(ax as int, ay as int, xs, ys, err as int, dx as int, dy as int, sx as int, sy as int);
        }
        let e2 = err * 2;
        let ghost xs1 = if e2 > -dy { xs + 1 } else { xs };
        let ghost ys1 = if e2 < dx { ys + 1 } else { ys };
        if e2 > -dy {
            err = err - dy;
            x = x + sx;
        }
        if e2 < dx {
            err = err + dx;
            y = y + sy;
        }
        proof {
            xs = xs1;
            ys = ys1;
            lemma_walk_dist(ax as int, ay as int, xs, ys, dx as int, dy as int, sx as int, sy as int, bx as int, by as int);
        }
    }
    count
}

/// The middle of `a` and `b`, each coordinate halved toward zero.
pub open spec fn mid_of(a: (int, int), b: (int, int)) -> (int, int) {
    (trunc_div(a.0 + b.0, 2), trunc_div(a.1 + b.1, 2))
}

/// `v / 2` rounded toward zero.
fn half_toward_zero(v: i64) -> (q: i64)
    requires
        v > i64::MIN,
    ensures
        q == trunc_div(v as int, 2),
{
    if v >= 0 {
        v / 2
    } else {
        -((-v) / 2)
    }
}

/// The middle of `a` and `b`, each coordinate halved toward zero.
pub fn midpoint(a: (i32, i32), b: (i32, i32)) -> (m: (i32, i32))
    ensures
        pt(m) == mid_of(pt(a), pt(b)),
{
    let x = half_toward_zero(a.0 as i64 + b.0 as i64);
    let y = half_toward_zero(a.1 as i64 + b.1 as i64);
    (x as i32, y as i32)
}

/// The area of `r`.
pub open spec fn area(r: Rect) -> int {
    r.width * r.height
}

/// The rectangle with all fields zero.
pub open spec fn empty_rect() -> Rect {
    Rect { x: 0, y: 0, width: 0, height: 0 }
}

/// The bounding box of the arrow: among the boxes of all contours, the first
/// one with the largest area. Where no box has a positive area, position 0
/// and the empty rectangle.
pub fn largest_box(boxes: &Vec<Rect>) -> (r: (usize, Rect))
    ensures
        (forall|j: int| 0 <= j < boxes@.len() ==> area(#[trigger] boxes@[j]) <= 0) ==> r == (
        0usize, empty_rect()),
        (exists|j: int| 0 <= j < boxes@.len() && area(#[trigger] boxes@[j]) > 0) ==> {
            &&& r.0 < boxes@.len()
            &&& r.1 == boxes@[r.0 as int]
            &&& area(r.1) > 0
            &&& forall|j: int| 0 <= j < boxes@.len() ==> area(#[trigger] boxes@[j]) <= area(r.1)
            &&& forall|j: int| 0 <= j < r.0 ==> area(#[trigger] boxes@[j]) < area(r.1)
        },
{
    let mut best_idx: usize = 0;
    let mut best = Rect { x: 0, y: 0, width: 0, height: 0 };
    let mut best_area: i64 = 0;
    let mut i: usize = 0;
    while i < boxes.len()
        invariant
            0 <= i <= boxes@.len(),
            best_area == area(best),
            best_area >= 0,
            forall|j: int| 0 <= j < i ==> area(#[trigger] boxes@[j]) <= best_area,
            best_area == 0 ==> best_idx == 0 && best == empty_rect(),
            best_area > 0 ==> {
                &&& best_idx < i
                &&& best == boxes@[best_idx as int]
                &&& forall|j: int| 0 <= j < best_idx ==> area(#[trigger] boxes@[j]) < best_area
            },
        decreases boxes@.len() - i,
    {
        let r = boxes[i];
        proof {
            assert(-0x4000_0000_0000_0000 <= r.width * r.height <= 0x4000_0000_0000_0000) by (nonlinear_arith)
                requires
                    i32::MIN <= r.width <= i32::MAX,
                    i32::MIN <= r.height <= i32::MAX,
            ;
        }
        let a = (r.width as i64) * (r.height as i64);
        if a > best_area {
            best_area = a;
            best = r;
            best_idx = i;
        }
        i = i + 1;
    }
    (best_idx, best)
}

/// The corner of the triangle that edge `i` faces, and the edge's ends.
pub open spec fn corner(cs: Seq<(i32, i32)>, i: int) -> (int, int) {
    pt(cs[i % 3])
}

/// `p` taken relative to `off`.
pub open spec fn rel(p: (int, int), off: (int, int)) -> (int, int) {
    (p.0 - off.0, p.1 - off.1)
}

/// The middle of edge `i` of the triangle, from corner `i` to corner `i + 1`.
pub open spec fn edge_mid(cs: Seq<(i32, i32)>, i: int) -> (int, int) {
    mid_of(corner(cs, i), corner(cs, i + 1))
}

/// The dark pixels at the start of the walk from the middle of edge `i` to
/// the corner it faces, in the mask of the box at `off`.
pub open spec fn edge_black(mask: Seq<u8>, w: int, h: int, cs: Seq<(i32, i32)>, off: (int, int), i: int) -> int {
    leading_black(mask, w, h, rel(edge_mid(cs, i), off), rel(corner(cs, i + 2), off))
}

/// The first edge, in corner order, whose walk starts on dark pixels.
pub open spec fn first_dark_edge(mask: Seq<u8>, w: int, h: int, cs: Seq<(i32, i32)>, off: (int, int)) -> Option<int> {
    if edge_black(mask, w, h, cs, off, 0) > 0 {
        Some(0)
    } else if edge_black(mask, w, h, cs, off, 1) > 0 {
        Some(1)
    } else if edge_black(mask, w, h, cs, off, 2) > 0 {
        Some(2)
    } else {
        None
    }
}

/// Every point that the edge walks use fits the mask's coordinate type once
/// taken relative to `off`.
pub open spec fn walks_fit(cs: Seq<(i32, i32)>, off: (int, int)) -> bool {
    forall|i: int|
        0 <= i < 3 ==> {
            &&& i32::MIN <= #[trigger] rel(edge_mid(cs, i), off).0 <= i32::MAX
            &&& i32::MIN <= rel(edge_mid(cs, i), off).1 <= i32::MAX
            &&& i32::MIN <= rel(corner(cs, i), off).0 <= i32::MAX
            &&& i32::MIN <= rel(corner(cs, i), off).1 <= i32::MAX
        }
}

/// The direction of the arrow whose outline simplifies to the corners `cs`,
/// given as the middle of its back edge and the corner it points with:
/// the first edge whose walk to the opposite corner starts on dark pixels of
/// `mask`, the `w` by `h` mask of the arrow's box at `off`. `None` where the
/// outline is not a triangle or no walk starts on a dark pixel.
pub fn pointer_direction(
    mask: &Vec<u8>,
    w: i32,
    h: i32,
    cs: &Vec<(i32, i32)>,
    off: (i32, i32),
) -> (r: Option<((i32, i32), (i32, i32))>)
    requires
        w >= 0,
        h >= 0,
        mask@.len() == w * h,
        w + h <= i32::MAX,
        cs@.len() == 3 ==> walks_fit(cs@, pt(off)),
    ensures
        cs@.len() != 3 ==> r is None,
        cs@.len() == 3 ==> match first_dark_edge(mask@, w as int, h as int, cs@, pt(off)) {
            None => r is None,
            Some(i) => r matches Some((m, t)) && pt(m) == edge_mid(cs@, i) && pt(t) == corner(cs@, i + 2),
        },
{
    if cs.len() != 3 {
        return None;
    }
    let mut i: usize = 0;
    while i < 3
        invariant
            cs@.len() == 3,
            0 <= i <= 3,
            w >= 0,
            h >= 0,
            mask@.len() == w * h,
            w + h <= i32::MAX,
            walks_fit(cs@, pt(off)),
            forall|j: int| 0 <= j < i ==> edge_black(mask@, w as int, h as int, cs@, pt(off), j) <= 0,
        decreases 3 - i,
    {
        let a = cs[i];
        let b = cs[(i + 1) % 3];
        let c = cs[(i + 2) % 3];
        let mid = midpoint(a, b);
        proof {
            assert(rel(edge_mid(cs@, i as int), pt(off)).0 == mid.0 - off.0);
            assert(i32::MIN <= rel(edge_mid(cs@, i as int), pt(off)).0 <= i32::MAX);
            assert(i32::MIN <= rel(corner(cs@, (i + 2) % 3), pt(off)).0 <= i32::MAX);
            assert(corner(cs@, (i + 2) % 3) == corner(cs@, i + 2));
        }
        let p_mid = (mid.0 - off.0, mid.1 - off.1);
        let p_tar = (c.0 - off.0, c.1 - off.1);
        let black = count_leading_black(mask, w, h, p_mid, p_tar);
        if black > 0 {
            return Some((mid, c));
        }
        i = i + 1;
    }
    None
}

} // verus!
