//! Cutting the feature points of a map into a grid of blocks.
//!
//! Given the map size `(w, h)`, the number of rows and columns and all
//! feature points, the grid holds `rows * cols` blocks in row-major order;
//! each block lists the positions, in the point array, of the points that
//! fall into it.

use vstd::prelude::*;

verus! {

/// `a / d` rounded toward zero, as integer division computes it.
pub open spec fn trunc_div(a: int, d: int) -> int {
    if a == 0 {
        0
    } else if a > 0 && d > 0 {
        a / d
    } else if a < 0 && d < 0 {
        (a * -1) / (d * -1)
    } else if a < 0 {
        ((a * -1) / d) * -1
    } else {
        (a / (d * -1)) * -1
    }
}

/// `v` moved into `[lo, hi]`.
pub open spec fn clamp(v: int, lo: int, hi: int) -> int {
    if v < lo {
        lo
    } else if v > hi {
        hi
    } else {
        v
    }
}

/// The width of a grid cell.
pub open spec fn cell_width(map_w: i32, cols: i32) -> int {
    trunc_div(map_w as int, cols as int)
}

/// The height of a grid cell.
pub open spec fn cell_height(map_h: i32, rows: i32) -> int {
    trunc_div(map_h as int, rows as int)
}

/// The row of the grid a point falls into.
pub open spec fn row_of(p: (i32, i32), map_h: i32, rows: i32) -> int {
    clamp(trunc_div(p.1 as int, cell_height(map_h, rows)), 0, rows - 1)
}

/// The column of the grid a point falls into.
pub open spec fn col_of(p: (i32, i32), map_w: i32, cols: i32) -> int {
    clamp(trunc_div(p.0 as int, cell_width(map_w, cols)), 0, cols - 1)
}

/// The row-major number of the block a point `(x, y)` falls into.
pub open spec fn block_of(p: (i32, i32), map_w: i32, map_h: i32, rows: i32, cols: i32) -> int {
    row_of(p, map_h, rows) * cols + col_of(p, map_w, cols)
}

/// The positions, in order, of the points of `pts` that fall into block `b`.
pub open spec fn block_members(
    pts: Seq<(i32, i32)>,
    map_w: i32,
    map_h: i32,
    rows: i32,
    cols: i32,
    b: int,
) -> Seq<u32>
    decreases pts.len(),
{
    if pts.len() == 0 {
        Seq::empty()
    } else {
        let rest = block_members(pts.drop_last(), map_w, map_h, rows, cols, b);
        if block_of(pts.last(), map_w, map_h, rows, cols) == b {
            rest.push((pts.len() - 1) as u32)
        } else {
            rest
        }
    }
}

/// The dimensions for which the grid can be computed without a division by
/// zero or an overflow.
pub open spec fn grid_dims_ok(map_w: i32, map_h: i32, rows: i32, cols: i32) -> bool {
    &&& rows > 0
    &&& cols > 0
    &&& rows * cols <= i32::MAX
    &&& cell_width(map_w, cols) != 0
    &&& cell_height(map_h, rows) != 0
}

/// A point can be placed into a cell: the division by the cell size does not
/// overflow.
pub open spec fn point_ok(p: (i32, i32), map_w: i32, map_h: i32, rows: i32, cols: i32) -> bool {
    &&& !(cell_width(map_w, cols) == -1 && p.0 == i32::MIN)
    &&& !(cell_height(map_h, rows) == -1 && p.1 == i32::MIN)
}

/// One block of the grid.
#[derive(Debug, Clone, Default)]
pub struct FeatureBlock {
    /// Positions of the block's points in the point array.
    pub indices: Vec<u32>,
}

/// The blocks of a map grid, in row-major order.
pub struct SplitGrid {
    pub rows: i32,
    pub cols: i32,
    pub map_w: i32,
    pub map_h: i32,
    /// The blocks, row after row.
    pub blocks: Vec<FeatureBlock>,
}

/// `v / d` rounded toward zero, computed as the library computes it.
fn div_toward_zero(v: i32, d: i32) -> (q: i32)
    requires
        d != 0,
        !(d == -1 && v == i32::MIN),
    ensures
        q == trunc_div(v as int, d as int),
{
    let a = v as i64;
    let e = d as i64;
    let q: i64 = if a == 0 {
        0
    } else if a > 0 && e > 0 {
        assert((a as int) / (e as int) <= a as int) by (nonlinear_arith)
            requires
                a > 0,
                e > 0,
        ;
        a / e
    } else if a < 0 && e < 0 {
        assert((-(a as int)) / (-(e as int)) <= -(a as int)) by (nonlinear_arith)
            requires
                a < 0,
                e < 0,
        ;
        (-a) / (-e)
    } else if a < 0 {
        assert((-(a as int)) / (e as int) <= -(a as int)) by (nonlinear_arith)
            requires
                a < 0,
                e > 0,
        ;
        0 - ((-a) / e)
    } else {
        assert((a as int) / (-(e as int)) <= a as int) by (nonlinear_arith)
            requires
                a > 0,
                e < 0,
        ;
        0 - (a / (-e))
    };
    proof {
        if a < 0 && e < 0 {
            if a == i32::MIN {
                assert(e != -1);
                assert((-(a as int)) / (-(e as int)) <= (-(a as int)) / 2) by (nonlinear_arith)
                    requires
                        -a > 0,
                        -e >= 2,
                ;
            }
        }
    }
    q as i32
}

/// The number of a block lies inside the grid.
pub proof fn lemma_block_in_grid(r: int, c: int, rows: int, cols: int)
    requires
        0 <= r < rows,
        0 <= c < cols,
    ensures
        0 <= r * cols + c < rows * cols,
{
    assert(0 <= r * cols + c < rows * cols) by (nonlinear_arith)
        requires
            0 <= r < rows,
            0 <= c < cols,
    ;
}

/// A point's position is listed in a block exactly when the point falls into
/// that block, so every point lies in exactly one block.
pub proof fn lemma_block_members_partition(
    pts: Seq<(i32, i32)>,
    map_w: i32,
    map_h: i32,
    rows: i32,
    cols: i32,
    b: int,
    i: int,
)
    requires
        0 <= i < pts.len() <= 0x1_0000_0000,
    ensures
        block_members(pts, map_w, map_h, rows, cols, b).contains(i as u32) <==> block_of(
            pts[i],
            map_w,
            map_h,
            rows,
            cols,
        ) == b,
    decreases pts.len(),
{
    let rest = block_members(pts.drop_last(), map_w, map_h, rows, cols, b);
    lemma_block_members_below(pts.drop_last(), map_w, map_h, rows, cols, b);
    if i < pts.len() - 1 {
        lemma_block_members_partition(pts.drop_last(), map_w, map_h, rows, cols, b, i);
        assert(pts.drop_last()[i] == pts[i]);
        if block_of(pts.last(), map_w, map_h, rows, cols) == b {
            let s = rest.push((pts.len() - 1) as u32);
            assert(s.contains(i as u32) ==> rest.contains(i as u32)) by {
                if s.contains(i as u32) {
                    let k = choose|k: int| 0 <= k < s.len() && s[k] == i as u32;
                    if k == s.len() - 1 {
                        assert((pts.len() - 1) as u32 == i as u32);
                    } else {
                        assert(rest[k] == i as u32);
                    }
                }
            }
            assert(rest.contains(i as u32) ==> s.contains(i as u32)) by {
                if rest.contains(i as u32) {
                    let k = choose|k: int| 0 <= k < rest.len() && rest[k] == i as u32;
                    assert(s[k] == i as u32);
                }
            }
        }
    } else {
        assert(!rest.contains(i as u32)) by {
            if rest.contains(i as u32) {
                let k = choose|k: int| 0 <= k < rest.len() && rest[k] == i as u32;
                assert(rest[k] < i);
            }
        }
        if block_of(pts.last(), map_w, map_h, rows, cols) == b {
            let s = rest.push((pts.len() - 1) as u32);
            assert(s[s.len() - 1] == i as u32);
        }
    }
}

/// The positions listed in a block are positions of the point array.
pub proof fn lemma_block_members_below(
    pts: Seq<(i32, i32)>,
    map_w: i32,
    map_h: i32,
    rows: i32,
    cols: i32,
    b: int,
)
    requires
        pts.len() <= 0x1_0000_0000,
    ensures
        forall|k: int|
            0 <= k < block_members(pts, map_w, map_h, rows, cols, b).len() ==> (#[trigger] block_members(
                pts,
                map_w,
                map_h,
                rows,
                cols,
                b,
            )[k] as int) < pts.len(),
    decreases pts.len(),
{
    if pts.len() > 0 {
        lemma_block_members_below(pts.drop_last(), map_w, map_h, rows, cols, b);
        let rest = block_members(pts.drop_last(), map_w, map_h, rows, cols, b);
        let last = (pts.len() - 1) as u32;
        assert(last as int == pts.len() - 1);
        if block_of(pts.last(), map_w, map_h, rows, cols) == b {
            let s = rest.push(last);
            assert forall|k: int| 0 <= k < s.len() implies (s[k] as int) < pts.len() by {
                if k < rest.len() {
                    assert(s[k] == rest[k]);
                }
            }
        }
    }
}

impl SplitGrid {
    /// The grid has its stated dimensions and one block per cell.
    pub open spec fn wf(&self) -> bool {
        &&& self.rows > 0
        &&& self.cols > 0
        &&& self.rows * self.cols <= i32::MAX
        &&& self.blocks@.len() == self.rows * self.cols
    }

    /// Cuts the points `(x, y)` of a `map_w` by `map_h` map into `rows` by `cols` blocks.
    pub fn split(map_w: i32, map_h: i32, rows: i32, cols: i32, kps: &[(i32, i32)]) -> (g: Self)
        requires
            grid_dims_ok(map_w, map_h, rows, cols),
            kps@.len() <= 0x1_0000_0000,
            forall|i: int| 0 <= i < kps@.len() ==> point_ok(#[trigger] kps@[i], map_w, map_h, rows, cols),
        ensures
            g.wf(),
            g.rows == rows,
            g.cols == cols,
            g.map_w == map_w,
            g.map_h == map_h,
            forall|b: int|
                0 <= b < rows * cols ==> (#[trigger] g.blocks@[b]).indices@ == block_members(
                    kps@,
                    map_w,
                    map_h,
                    rows,
                    cols,
                    b,
                ),
    {
        let cell_w = div_toward_zero(map_w, cols);
        let cell_h = div_toward_zero(map_h, rows);
        let n: usize = (rows * cols) as usize;
        let mut blocks: Vec<FeatureBlock> = Vec::new();
        while blocks.len() < n
            invariant
                n == rows * cols,
                blocks@.len() <= n,
                forall|b: int| 0 <= b < blocks@.len() ==> (#[trigger] blocks@[b]).indices@ == Seq::<u32>::empty(),
            decreases n - blocks@.len(),
        {
            blocks.push(FeatureBlock { indices: Vec::new() });
        }
        let mut i: usize = 0;
        while i < kps.len()
            invariant
                grid_dims_ok(map_w, map_h, rows, cols),
                cell_w == cell_width(map_w, cols),
                cell_h == cell_height(map_h, rows),
                kps@.len() <= 0x1_0000_0000,
                forall|k: int| 0 <= k < kps@.len() ==> point_ok(#[trigger] kps@[k], map_w, map_h, rows, cols),
                n == rows * cols,
                blocks@.len() == n,
                0 <= i <= kps@.len(),
                forall|b: int|
                    0 <= b < n ==> (#[trigger] blocks@[b]).indices@ == block_members(
                        kps@.take(i as int),
                        map_w,
                        map_h,
                        rows,
                        cols,
                        b,
                    ),
            decreases kps@.len() - i,
        {
            let (x, y) = kps[i];
            assert(point_ok(kps@[i as int], map_w, map_h, rows, cols));
            let mut row = div_toward_zero(y, cell_h);
            let mut col = div_toward_zero(x, cell_w);
            if row < 0 {
                row = 0;
            }
            if row > rows - 1 {
                row = rows - 1;
            }
            if col < 0 {
                col = 0;
            }
            if col > cols - 1 {
                col = cols - 1;
            }
            proof {
                lemma_block_in_grid(row as int, col as int, rows as int, cols as int);
            }
            let b = (row * cols + col) as usize;
            let ghost before = kps@.take(i as int);
            let ghost after = kps@.take(i + 1);
            assert(after.drop_last() =~= before);
            assert(after.last() == kps@[i as int]);
            assert(b == block_of(kps@[i as int], map_w, map_h, rows, cols));
            blocks[b].indices.push(i as u32);
            assert forall|c: int| 0 <= c < n implies (#[trigger] blocks@[c]).indices@
                == block_members(after, map_w, map_h, rows, cols, c) by {
                if c != b {
                    assert(block_of(after.last(), map_w, map_h, rows, cols) != c);
                }
            }
            i = i + 1;
        }
        assert(kps@.take(i as int) =~= kps@);
        SplitGrid { rows, cols, map_w, map_h, blocks }
    }

    /// The block in `row`, `col`; `None` outside the grid.
    pub fn at(&self, row: i32, col: i32) -> (r: Option<&FeatureBlock>)
        requires
            self.wf(),
        ensures
            match r {
                Some(blk) => {
                    &&& 0 <= row < self.rows
                    &&& 0 <= col < self.cols
                    &&& *blk == self.blocks@[row * self.cols + col]
                },
                None => !(0 <= row < self.rows && 0 <= col < self.cols),
            },
    {
        if row < 0 || col < 0 || row >= self.rows || col >= self.cols {
            return None;
        }
        proof {
            lemma_block_in_grid(row as int, col as int, self.rows as int, self.cols as int);
        }
        Some(&self.blocks[(row * self.cols + col) as usize])
    }

    /// The positions of the blocks in row `r`, columns `c0` to `c1`, in order.
    pub open spec fn merged_row(&self, r: int, c0: int, c1: int) -> Seq<u32>
        decreases c1 - c0 + 1,
    {
        if c1 < c0 {
            Seq::empty()
        } else {
            self.merged_row(r, c0, c1 - 1) + self.blocks@[r * self.cols + c1].indices@
        }
    }

    /// The positions of the blocks in rows `r0` to `r1`, columns `c0` to `c1`, row by row.
    pub open spec fn merged_rows(&self, r0: int, r1: int, c0: int, c1: int) -> Seq<u32>
        decreases r1 - r0 + 1,
    {
        if r1 < r0 {
            Seq::empty()
        } else {
            self.merged_rows(r0, r1 - 1, c0, c1) + self.merged_row(r1, c0, c1)
        }
    }

    /// The positions of all points in the blocks at most `expand` rows and
    /// columns away from `cell_row`, `cell_col`, block after block in row-major order.
    pub fn merge_neighbors(&self, cell_row: i32, cell_col: i32, expand: i32) -> (out: Vec<u32>)
        requires
            self.wf(),
            i32::MIN <= cell_row - expand <= i32::MAX,
            i32::MIN <= cell_row + expand <= i32::MAX,
            i32::MIN <= cell_col - expand <= i32::MAX,
            i32::MIN <= cell_col + expand <= i32::MAX,
        ensures
            out@ == self.merged_rows(
                clamp(cell_row - expand, 0, i32::MAX as int),
                clamp(cell_row + expand, i32::MIN as int, self.rows - 1),
                clamp(cell_col - expand, 0, i32::MAX as int),
                clamp(cell_col + expand, i32::MIN as int, self.cols - 1),
            ),
    {
        let r0 = if cell_row - expand > 0 {
            cell_row - expand
        } else {
            0
        };
        let r1 = if cell_row + expand < self.rows - 1 {
            cell_row + expand
        } else {
            self.rows - 1
        };
        let c0 = if cell_col - expand > 0 {
            cell_col - expand
        } else {
            0
        };
        let c1 = if cell_col + expand < self.cols - 1 {
            cell_col + expand
        } else {
            self.cols - 1
        };
        let mut out: Vec<u32> = Vec::new();
        let mut r = r0;
        while r <= r1
            invariant
                self.wf(),
                0 <= r0,
                r1 <= self.rows - 1,
                0 <= c0,
                c1 <= self.cols - 1,
                r0 <= r <= r1 + 1 || (r == r0 && r0 > r1),
                out@ == self.merged_rows(r0 as int, r - 1, c0 as int, c1 as int),
            decreases r1 - r + 1,
        {
            let mut c = c0;
            while c <= c1
                invariant
                    self.wf(),
                    0 <= r0 <= r <= r1 <= self.rows - 1,
                    0 <= c0,
                    c1 <= self.cols - 1,
                    c0 <= c <= c1 + 1 || (c == c0 && c0 > c1),
                    out@ == self.merged_rows(r0 as int, r - 1, c0 as int, c1 as int) + self.merged_row(
                        r as int,
                        c0 as int,
                        c - 1,
                    ),
                decreases c1 - c + 1,
            {
                proof {
                    lemma_block_in_grid(r as int, c as int, self.rows as int, self.cols as int);
                }
                let blk = &self.blocks[(r * self.cols + c) as usize];
                let ghost start = out@;
                let mut k: usize = 0;
                while k < blk.indices.len()
                    invariant
                        out@ == start + blk.indices@.take(k as int),
                        0 <= k <= blk.indices@.len(),
                    decreases blk.indices@.len() - k,
                {
                    out.push(blk.indices[k]);
                    assert(blk.indices@.take(k + 1) =~= blk.indices@.take(k as int).push(
                        blk.indices@[k as int],
                    ));
                    k = k + 1;
                }
                assert(blk.indices@.take(k as int) =~= blk.indices@);
                assert(self.merged_rows(r0 as int, r - 1, c0 as int, c1 as int) + self.merged_row(
                    r as int,
                    c0 as int,
                    c as int,
                ) =~= start + blk.indices@);
                c = c + 1;
            }
            assert(c == c1 + 1 || c0 > c1);
            r = r + 1;
        }
        out
    }
}

} // verus!
