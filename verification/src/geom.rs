//! Integer rectangles in screen pixels.

use vstd::prelude::*;

verus! {

/// A rectangle with its top-left corner at `(x, y)`.
#[derive(Debug, Clone, Copy, PartialEq, Eq, Default, Structural)]
pub struct Rect {
    pub x: i32,
    pub y: i32,
    pub width: i32,
    pub height: i32,
}

/// The right edge of `r`.
pub open spec fn right_of(r: Rect) -> int {
    r.x + r.width
}

/// The bottom edge of `r`.
pub open spec fn bottom_of(r: Rect) -> int {
    r.y + r.height
}

/// The edges of `r` are representable.
pub open spec fn edges_fit(r: Rect) -> bool {
    &&& i32::MIN <= right_of(r) <= i32::MAX
    &&& i32::MIN <= bottom_of(r) <= i32::MAX
}

/// Whether `inner` lies inside `outer`, edges included.
pub open spec fn rect_contains_spec(outer: Rect, inner: Rect) -> bool {
    &&& inner.x >= outer.x
    &&& inner.y >= outer.y
    &&& right_of(inner) <= right_of(outer)
    &&& bottom_of(inner) <= bottom_of(outer)
}

/// Whether `inner` lies inside `outer`, edges included.
pub fn rect_contains(outer: Rect, inner: Rect) -> (r: bool)
    requires
        edges_fit(outer),
        edges_fit(inner),
    ensures
        r == rect_contains_spec(outer, inner),
{
    inner.x >= outer.x && inner.y >= outer.y && inner.x + inner.width <= outer.x + outer.width
        && inner.y + inner.height <= outer.y + outer.height
}

/// The smallest left edge of the rectangles.
pub open spec fn min_left(rs: Seq<Rect>) -> int
    decreases rs.len(),
{
    if rs.len() <= 1 {
        if rs.len() == 0 { i32::MAX as int } else { rs[0].x as int }
    } else {
        let m = min_left(rs.drop_last());
        if rs.last().x < m { rs.last().x as int } else { m }
    }
}

/// The smallest top edge of the rectangles.
pub open spec fn min_top(rs: Seq<Rect>) -> int
    decreases rs.len(),
{
    if rs.len() <= 1 {
        if rs.len() == 0 { i32::MAX as int } else { rs[0].y as int }
    } else {
        let m = min_top(rs.drop_last());
        if rs.last().y < m { rs.last().y as int } else { m }
    }
}

/// The largest right edge of the rectangles.
pub open spec fn max_right(rs: Seq<Rect>) -> int
    decreases rs.len(),
{
    if rs.len() <= 1 {
        if rs.len() == 0 { i32::MIN as int } else { right_of(rs[0]) }
    } else {
        let m = max_right(rs.drop_last());
        if right_of(rs.last()) > m { right_of(rs.last()) } else { m }
    }
}

/// The largest bottom edge of the rectangles.
pub open spec fn max_bottom(rs: Seq<Rect>) -> int
    decreases rs.len(),
{
    if rs.len() <= 1 {
        if rs.len() == 0 { i32::MIN as int } else { bottom_of(rs[0]) }
    } else {
        let m = max_bottom(rs.drop_last());
        if bottom_of(rs.last()) > m { bottom_of(rs.last()) } else { m }
    }
}

/// The smallest rectangle around all of `rs`; `None` for no rectangle.
pub open spec fn bounding_rect_spec(rs: Seq<Rect>) -> Option<Rect> {
    if rs.len() == 0 {
        None
    } else {
        Some(
            Rect {
                x: min_left(rs) as i32,
                y: min_top(rs) as i32,
                width: (max_right(rs) - min_left(rs)) as i32,
                height: (max_bottom(rs) - min_top(rs)) as i32,
            },
        )
    }
}

/// The extremes of non-empty rectangles are edges of some of them.
proof fn lemma_extremes_bounds(rs: Seq<Rect>)
    requires
        rs.len() >= 1,
        forall|i: int| 0 <= i < rs.len() ==> edges_fit(#[trigger] rs[i]),
    ensures
        i32::MIN <= min_left(rs) <= i32::MAX,
        i32::MIN <= min_top(rs) <= i32::MAX,
        i32::MIN <= max_right(rs) <= i32::MAX,
        i32::MIN <= max_bottom(rs) <= i32::MAX,
    decreases rs.len(),
{
    if rs.len() > 1 {
        assert forall|i: int| 0 <= i < rs.drop_last().len() implies edges_fit(
            #[trigger] rs.drop_last()[i],
        ) by {
            assert(rs.drop_last()[i] == rs[i]);
        }
        lemma_extremes_bounds(rs.drop_last());
        assert(edges_fit(rs[rs.len() - 1]));
    } else {
        assert(edges_fit(rs[0]));
    }
}

/// The smallest rectangle around all of `rs`; `None` for no rectangle.
pub fn bounding_rect(rs: &Vec<Rect>) -> (r: Option<Rect>)
    requires
        forall|i: int| 0 <= i < rs@.len() ==> edges_fit(#[trigger] rs@[i]),
        rs@.len() > 0 ==> max_right(rs@) - min_left(rs@) <= i32::MAX,
        rs@.len() > 0 ==> max_bottom(rs@) - min_top(rs@) <= i32::MAX,
    ensures
        r == bounding_rect_spec(rs@),
{
    if rs.len() == 0 {
        return None;
    }
    let mut l: i32 = rs[0].x;
    let mut t: i32 = rs[0].y;
    let mut r: i32 = rs[0].x + rs[0].width;
    let mut b: i32 = rs[0].y + rs[0].height;
    let mut i: usize = 1;
    assert(edges_fit(rs@[0]));
    assert(rs@.take(1).len() == 1 && rs@.take(1)[0] == rs@[0]);
    while i < rs.len()
        invariant
            1 <= i <= rs@.len(),
            forall|k: int| 0 <= k < rs@.len() ==> edges_fit(#[trigger] rs@[k]),
            l == min_left(rs@.take(i as int)),
            t == min_top(rs@.take(i as int)),
            r == max_right(rs@.take(i as int)),
            b == max_bottom(rs@.take(i as int)),
        decreases rs@.len() - i,
    {
        let c = rs[i];
        assert(edges_fit(rs@[i as int]));
        assert(rs@.take(i + 1).drop_last() =~= rs@.take(i as int));
        assert(rs@.take(i + 1).last() == c);
        if c.x < l {
            l = c.x;
        }
        if c.y < t {
            t = c.y;
        }
        if c.x + c.width > r {
            r = c.x + c.width;
        }
        if c.y + c.height > b {
            b = c.y + c.height;
        }
        i = i + 1;
    }
    assert(rs@.take(i as int) =~= rs@);
    Some(Rect { x: l, y: t, width: r - l, height: b - t })
}

/// Whether `r` reaches past the screen edges it is clipped to.
pub open spec fn clip_fits(r: Rect, w: i32, h: i32) -> bool {
    &&& edges_fit(r)
    &&& i32::MIN <= w - (if r.x < 0 { 0 } else { r.x as int })
    &&& i32::MIN <= h - (if r.y < 0 { 0 } else { r.y as int })
}

/// `r` cut to the area `0..w` by `0..h`; a rectangle outside it ends with a
/// width or height of zero or less.
pub open spec fn clip_rect_spec(r: Rect, w: i32, h: i32) -> Rect {
    let x = if r.x < 0 { 0 } else { r.x as int };
    let width = if r.x < 0 { r.width + r.x } else { r.width as int };
    let y = if r.y < 0 { 0 } else { r.y as int };
    let height = if r.y < 0 { r.height + r.y } else { r.height as int };
    let width2 = if x + width > w { w - x } else { width };
    let height2 = if y + height > h { h - y } else { height };
    Rect { x: x as i32, y: y as i32, width: width2 as i32, height: height2 as i32 }
}

/// `r` cut to the area `0..w` by `0..h`.
pub fn clip_rect(r: Rect, w: i32, h: i32) -> (c: Rect)
    requires
        clip_fits(r, w, h),
    ensures
        c == clip_rect_spec(r, w, h),
{
    let mut c = r;
    if c.x < 0 {
        c.width = c.width + c.x;
        c.x = 0;
    }
    if c.y < 0 {
        c.height = c.height + c.y;
        c.y = 0;
    }
    if c.x + c.width > w {
        c.width = w - c.x;
    }
    if c.y + c.height > h {
        c.height = h - c.y;
    }
    c
}

/// The overlap of `a` and `b`, or an empty rectangle at the origin where they do not overlap.
pub open spec fn intersect_spec(a: Rect, b: Rect) -> Rect {
    let x1 = if a.x > b.x { a.x } else { b.x };
    let y1 = if a.y > b.y { a.y } else { b.y };
    let x2 = if right_of(a) < right_of(b) { right_of(a) } else { right_of(b) };
    let y2 = if bottom_of(a) < bottom_of(b) { bottom_of(a) } else { bottom_of(b) };
    if x2 <= x1 || y2 <= y1 {
        Rect { x: 0, y: 0, width: 0, height: 0 }
    } else {
        Rect { x: x1, y: y1, width: (x2 - x1) as i32, height: (y2 - y1) as i32 }
    }
}

/// The overlap of `a` and `b`, or an empty rectangle at the origin where they do not overlap.
pub fn intersect(a: Rect, b: Rect) -> (r: Rect)
    requires
        edges_fit(a),
        edges_fit(b),
        ({
            let x1 = if a.x > b.x { a.x } else { b.x };
            let y1 = if a.y > b.y { a.y } else { b.y };
            let x2 = if right_of(a) < right_of(b) { right_of(a) } else { right_of(b) };
            let y2 = if bottom_of(a) < bottom_of(b) { bottom_of(a) } else { bottom_of(b) };
            (x2 <= x1 || y2 <= y1) || (x2 - x1 <= i32::MAX && y2 - y1 <= i32::MAX)
        }),
    ensures
        r == intersect_spec(a, b),
{
    let x1 = if a.x > b.x { a.x } else { b.x };
    let y1 = if a.y > b.y { a.y } else { b.y };
    let x2 = if a.x + a.width < b.x + b.width { a.x + a.width } else { b.x + b.width };
    let y2 = if a.y + a.height < b.y + b.height { a.y + a.height } else { b.y + b.height };
    if x2 <= x1 || y2 <= y1 {
        return Rect { x: 0, y: 0, width: 0, height: 0 };
    }
    Rect { x: x1, y: y1, width: x2 - x1, height: y2 - y1 }
}

/// The extremes of non-empty rectangles bound every rectangle and are edges of some of them.
proof fn lemma_extremes_attained(rs: Seq<Rect>)
    requires
        rs.len() >= 1,
    ensures
        forall|i: int| 0 <= i < rs.len() ==> min_left(rs) <= #[trigger] rs[i].x,
        forall|i: int| 0 <= i < rs.len() ==> min_top(rs) <= #[trigger] rs[i].y,
        forall|i: int| 0 <= i < rs.len() ==> right_of(#[trigger] rs[i]) <= max_right(rs),
        forall|i: int| 0 <= i < rs.len() ==> bottom_of(#[trigger] rs[i]) <= max_bottom(rs),
        exists|i: int| 0 <= i < rs.len() && min_left(rs) == #[trigger] rs[i].x,
        exists|i: int| 0 <= i < rs.len() && min_top(rs) == #[trigger] rs[i].y,
        exists|i: int| 0 <= i < rs.len() && max_right(rs) == right_of(#[trigger] rs[i]),
        exists|i: int| 0 <= i < rs.len() && max_bottom(rs) == bottom_of(#[trigger] rs[i]),
    decreases rs.len(),
{
    if rs.len() > 1 {
        let init = rs.drop_last();
        lemma_extremes_attained(init);
        let n = rs.len() - 1;
        assert forall|i: int| 0 <= i < init.len() implies #[trigger] init[i] == rs[i] by {}
        let il = choose|i: int| 0 <= i < init.len() && min_left(init) == #[trigger] init[i].x;
        let it = choose|i: int| 0 <= i < init.len() && min_top(init) == #[trigger] init[i].y;
        let ir = choose|i: int| 0 <= i < init.len() && max_right(init) == right_of(#[trigger] init[i]);
        let ib = choose|i: int| 0 <= i < init.len() && max_bottom(init) == bottom_of(#[trigger] init[i]);
        if rs[n].x < min_left(init) {
            assert(min_left(rs) == rs[n].x);
        } else {
            assert(min_left(rs) == rs[il].x);
        }
        if rs[n].y < min_top(init) {
            assert(min_top(rs) == rs[n].y);
        } else {
            assert(min_top(rs) == rs[it].y);
        }
        if right_of(rs[n]) > max_right(init) {
            assert(max_right(rs) == right_of(rs[n]));
        } else {
            assert(max_right(rs) == right_of(rs[ir]));
        }
        if bottom_of(rs[n]) > max_bottom(init) {
            assert(max_bottom(rs) == bottom_of(rs[n]));
        } else {
            assert(max_bottom(rs) == bottom_of(rs[ib]));
        }
        assert forall|i: int| 0 <= i < rs.len() implies min_left(rs) <= #[trigger] rs[i].x by {
            if i < n {
                assert(init[i] == rs[i]);
            }
        }
        assert forall|i: int| 0 <= i < rs.len() implies min_top(rs) <= #[trigger] rs[i].y by {
            if i < n {
                assert(init[i] == rs[i]);
            }
        }
        assert forall|i: int| 0 <= i < rs.len() implies right_of(#[trigger] rs[i]) <= max_right(rs) by {
            if i < n {
                assert(init[i] == rs[i]);
            }
        }
        assert forall|i: int| 0 <= i < rs.len() implies bottom_of(#[trigger] rs[i]) <= max_bottom(rs) by {
            if i < n {
                assert(init[i] == rs[i]);
            }
        }
    } else {
        assert(min_left(rs) == rs[0].x);
        assert(min_top(rs) == rs[0].y);
    }
}

/// The bounding rectangle of non-empty rectangles contains each of them,
/// and each of its edges is an edge of one of them, so no smaller rectangle
/// contains them all.
pub proof fn lemma_bounding_rect_smallest(rs: Seq<Rect>)
    requires
        rs.len() >= 1,
        forall|i: int| 0 <= i < rs.len() ==> edges_fit(#[trigger] rs[i]),
        max_right(rs) - min_left(rs) <= i32::MAX,
        max_bottom(rs) - min_top(rs) <= i32::MAX,
    ensures
        ({
            let b = bounding_rect_spec(rs)->Some_0;
            &&& forall|i: int| 0 <= i < rs.len() ==> rect_contains_spec(b, #[trigger] rs[i])
            &&& exists|i: int| 0 <= i < rs.len() && b.x == #[trigger] rs[i].x
            &&& exists|i: int| 0 <= i < rs.len() && b.y == #[trigger] rs[i].y
            &&& exists|i: int| 0 <= i < rs.len() && right_of(b) == right_of(#[trigger] rs[i])
            &&& exists|i: int| 0 <= i < rs.len() && bottom_of(b) == bottom_of(#[trigger] rs[i])
        }),
{
    lemma_extremes_bounds(rs);
    lemma_extremes_attained(rs);
    let b = bounding_rect_spec(rs)->Some_0;
    assert(b.x == min_left(rs));
    assert(b.y == min_top(rs));
    assert(right_of(b) == max_right(rs));
    assert(bottom_of(b) == max_bottom(rs));
}

} // verus!
