//! Choosing dialogue options: the rules applied to the text lines read
//! next to the option icons.

use vstd::prelude::*;

use crate::geom::Rect;
use crate::navigate::tp::{contains_chars, contains_text};
use crate::text::{chars_of, is_ascii_alnum};

verus! {

broadcast use vstd::string::group_string_axioms;

/// The outcome of looking for a dialogue option.
#[derive(Debug, Clone, Copy, PartialEq, Eq, Structural)]
pub enum TalkOptionRes {
    /// The text was not found after all tries.
    NotFound,
    /// The text was found, but the option was not orange.
    FoundButNotOrange,
    /// The text was found and clicked.
    FoundAndClick,
}

/// A line of recognised text with its box in pixels.
#[derive(Debug)]
pub struct OcrLine {
    pub text: String,
    pub x: u32,
    pub y: u32,
    pub width: u32,
    pub height: u32,
}

/// `a + b`, or the largest `u32` where that overflows.
pub open spec fn sat_add(a: u32, b: u32) -> u32 {
    if a + b > u32::MAX {
        u32::MAX
    } else {
        (a + b) as u32
    }
}

/// A line moved by `(dx, dy)`, saturating at the largest coordinate.
pub open spec fn shifted_line(l: OcrLine, dx: u32, dy: u32) -> OcrLine {
    OcrLine { text: l.text, x: sat_add(l.x, dx), y: sat_add(l.y, dy), width: l.width, height: l.height }
}

/// How many lines of `s` start no lower than `y`.
pub open spec fn count_at_or_above(s: Seq<OcrLine>, y: u32) -> nat
    decreases s.len(),
{
    if s.len() == 0 {
        0
    } else {
        count_at_or_above(s.drop_last(), y) + if s.last().y <= y {
            1nat
        } else {
            0nat
        }
    }
}

/// `s` sorted by the top edge, lines with equal tops kept in their order.
pub open spec fn sort_by_top(s: Seq<OcrLine>) -> Seq<OcrLine>
    decreases s.len(),
{
    if s.len() == 0 {
        s
    } else {
        let rest = sort_by_top(s.drop_last());
        rest.insert(count_at_or_above(rest, s.last().y) as int, s.last())
    }
}

/// The lines of `s` are ordered by their top edge.
pub open spec fn sorted_by_top(s: Seq<OcrLine>) -> bool {
    forall|i: int, j: int| 0 <= i <= j < s.len() ==> s[i].y <= s[j].y
}

/// The top edge as a signed 32-bit number, as a cast to `i32` reads it.
pub open spec fn top_as_i32(y: u32) -> int {
    if y >= 0x8000_0000 {
        y - 0x1_0000_0000
    } else {
        y as int
    }
}

/// The vertical gap from line `i` to the next one, read as signed numbers.
pub open spec fn gap_to_next(s: Seq<OcrLine>, i: int) -> int {
    top_as_i32(s[i + 1].y) - top_as_i32(s[i].y)
}

/// Whether a line of text is ASCII letters and digits only (and not empty).
pub open spec fn is_en_or_num_spec(s: Seq<char>) -> bool {
    s.len() > 0 && forall|i: int| 0 <= i < s.len() ==> crate::text::ascii_alnum(#[trigger] s[i])
}

/// Whether line `i` of the sorted lines `s` is kept as an option: it has
/// text, is not a short run of ASCII letters and digits, and the next line
/// is at most 150 pixels lower.
pub open spec fn keeps_line(s: Seq<OcrLine>, i: int) -> bool {
    let t = s[i].text@;
    &&& t.len() > 0
    &&& !(t.len() < 5 && is_en_or_num_spec(t))
    &&& !(i + 1 < s.len() && gap_to_next(s, i) > 150)
}

/// The kept lines among the first `n` lines of `s`, in order.
pub open spec fn kept_lines(s: Seq<OcrLine>, n: int) -> Seq<OcrLine>
    decreases n,
{
    if n <= 0 {
        Seq::empty()
    } else {
        let rest = kept_lines(s, n - 1);
        if keeps_line(s, n - 1) {
            rest.push(s[n - 1])
        } else {
            rest
        }
    }
}

/// The option lines: all lines moved by `(dx, dy)`, sorted by their top edge and filtered.
pub open spec fn option_lines(lines: Seq<OcrLine>, dx: u32, dy: u32) -> Seq<OcrLine> {
    let sorted = sort_by_top(lines.map_values(|l: OcrLine| shifted_line(l, dx, dy)));
    kept_lines(sorted, sorted.len() as int)
}

/// The gaps between consecutive sorted lines are representable.
pub open spec fn gaps_fit(lines: Seq<OcrLine>, dx: u32, dy: u32) -> bool {
    let sorted = sort_by_top(lines.map_values(|l: OcrLine| shifted_line(l, dx, dy)));
    forall|i: int| 0 <= i < sorted.len() - 1 ==> i32::MIN <= #[trigger] gap_to_next(sorted, i) <= i32::MAX
}

/// Sorting keeps the number of lines.
pub proof fn lemma_sort_by_top_len(s: Seq<OcrLine>)
    ensures
        sort_by_top(s).len() == s.len(),
    decreases s.len(),
{
    if s.len() > 0 {
        lemma_sort_by_top_len(s.drop_last());
        lemma_count_at_or_above_bound(sort_by_top(s.drop_last()), s.last().y);
    }
}

/// The count of lines no lower than `y` is at most the number of lines.
pub proof fn lemma_count_at_or_above_bound(s: Seq<OcrLine>, y: u32)
    ensures
        count_at_or_above(s, y) <= s.len(),
    decreases s.len(),
{
    if s.len() > 0 {
        lemma_count_at_or_above_bound(s.drop_last(), y);
    }
}

/// In sorted lines, exactly the first `count_at_or_above` lines start no lower than `y`.
pub proof fn lemma_count_at_or_above_prefix(s: Seq<OcrLine>, y: u32)
    requires
        sorted_by_top(s),
    ensures
        forall|i: int| 0 <= i < count_at_or_above(s, y) ==> s[i].y <= y,
        forall|i: int| count_at_or_above(s, y) <= i < s.len() ==> s[i].y > y,
    decreases s.len(),
{
    if s.len() > 0 {
        lemma_count_at_or_above_prefix(s.drop_last(), y);
        lemma_count_at_or_above_bound(s.drop_last(), y);
        assert(forall|i: int| 0 <= i < s.drop_last().len() ==> s.drop_last()[i] == s[i]);
        if s.last().y <= y {
            assert forall|i: int| 0 <= i < s.len() - 1 implies s[i].y <= y by {
                assert(s[i].y <= s[s.len() - 1].y);
            }
        }
    }
}

/// Sorting by the top edge yields lines ordered by their top edge.
pub proof fn lemma_sort_by_top_sorted(s: Seq<OcrLine>)
    ensures
        sorted_by_top(sort_by_top(s)),
    decreases s.len(),
{
    if s.len() > 0 {
        let rest = sort_by_top(s.drop_last());
        lemma_sort_by_top_sorted(s.drop_last());
        let y = s.last().y;
        let p = count_at_or_above(rest, y) as int;
        lemma_count_at_or_above_prefix(rest, y);
        lemma_count_at_or_above_bound(rest, y);
        let r = rest.insert(p, s.last());
        assert forall|i: int, j: int| 0 <= i <= j < r.len() implies r[i].y <= r[j].y by {
            if i < p && j < p {
            } else if i < p && j == p {
            } else if i < p {
                assert(r[j] == rest[j - 1]);
            } else if i == p && j == p {
            } else if i == p {
                assert(r[j] == rest[j - 1]);
            } else {
                assert(r[i] == rest[i - 1]);
                assert(r[j] == rest[j - 1]);
            }
        }
    }
}

/// The line `l` moved by `(dx, dy)`.
fn shift_line(l: &OcrLine, dx: u32, dy: u32) -> (r: OcrLine)
    ensures
        r == shifted_line(*l, dx, dy),
{
    OcrLine {
        text: l.text.clone(),
        x: l.x.saturating_add(dx),
        y: l.y.saturating_add(dy),
        width: l.width,
        height: l.height,
    }
}

/// A copy of `l`.
fn copy_line(l: &OcrLine) -> (r: OcrLine)
    ensures
        r == *l,
{
    OcrLine { text: l.text.clone(), x: l.x, y: l.y, width: l.width, height: l.height }
}

/// Whether a line of text is ASCII letters and digits only (and not empty).
pub fn is_en_or_num(s: &str) -> (r: bool)
    ensures
        r == is_en_or_num_spec(s@),
{
    let v = chars_of(s);
    if v.len() == 0 {
        return false;
    }
    let mut i: usize = 0;
    while i < v.len()
        invariant
            v@ == s@,
            0 <= i <= v@.len(),
            forall|j: int| 0 <= j < i ==> crate::text::ascii_alnum(#[trigger] v@[j]),
        decreases v@.len() - i,
    {
        if !is_ascii_alnum(v[i]) {
            return false;
        }
        i = i + 1;
    }
    true
}

/// The option lines among the text lines `lines` read in a region whose
/// top-left corner is `(dx, dy)`: moved to screen coordinates, sorted
/// top to bottom, without empty lines, short ASCII-only lines and lines
/// followed by a gap of more than 150 pixels.
pub fn select_option_lines(lines: &Vec<OcrLine>, dx: u32, dy: u32) -> (out: Vec<OcrLine>)
    requires
        gaps_fit(lines@, dx, dy),
    ensures
        out@ == option_lines(lines@, dx, dy),
{
    let ghost moved = lines@.map_values(|l: OcrLine| shifted_line(l, dx, dy));
    let mut sorted: Vec<OcrLine> = Vec::new();
    let mut k: usize = 0;
    while k < lines.len()
        invariant
            moved == lines@.map_values(|l: OcrLine| shifted_line(l, dx, dy)),
            0 <= k <= lines@.len(),
            sorted@ == sort_by_top(moved.take(k as int)),
        decreases lines@.len() - k,
    {
        let item = shift_line(&lines[k], dx, dy);
        let ghost prev = moved.take(k as int);
        assert(moved.take(k + 1).drop_last() =~= prev);
        assert(moved.take(k + 1).last() == item);
        proof {
            lemma_sort_by_top_sorted(prev);
            lemma_sort_by_top_len(prev);
            lemma_count_at_or_above_prefix(sorted@, item.y);
            lemma_count_at_or_above_bound(sorted@, item.y);
        }
        let mut p: usize = 0;
        while p < sorted.len() && sorted[p].y <= item.y
            invariant
                0 <= p <= sorted@.len(),
                p <= count_at_or_above(sorted@, item.y),
                forall|i: int| count_at_or_above(sorted@, item.y) <= i < sorted@.len() ==> sorted@[i].y
                    > item.y,
                count_at_or_above(sorted@, item.y) <= sorted@.len(),
            decreases sorted@.len() - p,
        {
            p = p + 1;
        }
        assert(p == count_at_or_above(sorted@, item.y));
        sorted.insert(p, item);
        k = k + 1;
    }
    assert(moved.take(k as int) =~= moved);
    proof {
        lemma_sort_by_top_len(moved);
    }
    let mut out: Vec<OcrLine> = Vec::new();
    let mut i: usize = 0;
    while i < sorted.len()
        invariant
            sorted@ == sort_by_top(moved),
            moved == lines@.map_values(|l: OcrLine| shifted_line(l, dx, dy)),
            gaps_fit(lines@, dx, dy),
            0 <= i <= sorted@.len(),
            out@ == kept_lines(sorted@, i as int),
        decreases sorted@.len() - i,
    {
        let line = &sorted[i];
        let chars = chars_of(line.text.as_str());
        let mut keep = chars.len() > 0;
        if keep && chars.len() < 5 && is_en_or_num(line.text.as_str()) {
            keep = false;
        }
        if keep && i + 1 < sorted.len() {
            let next_y = sorted[i + 1].y;
            let a: i64 = if next_y >= 0x8000_0000 {
                next_y as i64 - 0x1_0000_0000
            } else {
                next_y as i64
            };
            let b: i64 = if line.y >= 0x8000_0000 {
                line.y as i64 - 0x1_0000_0000
            } else {
                line.y as i64
            };
            assert(a - b == gap_to_next(sorted@, i as int));
            if a - b > 150 {
                keep = false;
            }
        }
        assert(keep == keeps_line(sorted@, i as int));
        if keep {
            out.push(copy_line(line));
        }
        i = i + 1;
    }
    out
}

/// The point clicked to choose the option of a line: the centre of its box,
/// rounded towards the top-left corner.
pub open spec fn line_click_point(l: OcrLine) -> (int, int) {
    (l.x + l.width / 2, l.y + l.height / 2)
}

/// The point clicked to choose the option of a line (see [`line_click_point`]).
pub fn ocr_region_center(l: &OcrLine) -> (p: (i32, i32))
    requires
        l.width <= i32::MAX,
        l.height <= i32::MAX,
        l.x + l.width / 2 <= i32::MAX,
        l.y + l.height / 2 <= i32::MAX,
    ensures
        p.0 == line_click_point(*l).0,
        p.1 == line_click_point(*l).1,
{
    let cx = l.x as i32 + l.width as i32 / 2;
    let cy = l.y as i32 + l.height as i32 / 2;
    (cx, cy)
}

/// Whether hit `k` is the lowest option icon: none starts lower, and none
/// after it starts as low (of equally low icons the last one counts).
pub open spec fn is_lowest_hit(hits: Seq<Rect>, k: int) -> bool {
    &&& 0 <= k < hits.len()
    &&& forall|j: int| 0 <= j < hits.len() ==> #[trigger] hits[j].y <= hits[k].y
    &&& forall|j: int| k < j < hits.len() ==> #[trigger] hits[j].y < hits[k].y
}

/// The lowest option icon among `hits` (see [`is_lowest_hit`]); `None` for no icon.
pub fn lowest_hit(hits: &Vec<Rect>) -> (r: Option<usize>)
    ensures
        match r {
            Some(k) => is_lowest_hit(hits@, k as int),
            None => hits@.len() == 0,
        },
{
    if hits.len() == 0 {
        return None;
    }
    let mut best: usize = 0;
    let mut i: usize = 1;
    while i < hits.len()
        invariant
            1 <= i <= hits.len(),
            best < i,
            forall|j: int| 0 <= j < i ==> #[trigger] hits@[j].y <= hits@[best as int].y,
            forall|j: int| best < j < i ==> #[trigger] hits@[j].y < hits@[best as int].y,
        decreases hits.len() - i,
    {
        if hits[i].y >= hits[best].y {
            best = i;
        }
        i = i + 1;
    }
    Some(best)
}

/// The first option line whose text holds `option`, if any.
pub open spec fn is_first_option_with(lines: Seq<OcrLine>, option: Seq<char>, k: int) -> bool {
    &&& 0 <= k < lines.len()
    &&& contains_text(lines[k].text@, option)
    &&& forall|j: int| 0 <= j < k ==> !contains_text(#[trigger] lines[j].text@, option)
}

/// The first option line whose text holds `option`; `None` where no line does.
pub fn find_option(lines: &Vec<OcrLine>, option: &str) -> (r: Option<usize>)
    ensures
        match r {
            Some(k) => is_first_option_with(lines@, option@, k as int),
            None => forall|j: int| 0 <= j < lines@.len() ==> !contains_text(#[trigger] lines@[j].text@, option@),
        },
{
    let needle = chars_of(option);
    let mut i: usize = 0;
    while i < lines.len()
        invariant
            0 <= i <= lines.len(),
            needle@ == option@,
            forall|j: int| 0 <= j < i ==> !contains_text(#[trigger] lines@[j].text@, option@),
        decreases lines.len() - i,
    {
        let hay = chars_of(lines[i].text.as_str());
        if contains_chars(&hay, &needle) {
            return Some(i);
        }
        i = i + 1;
    }
    None
}

/// The kept lines of a sorted list come from it in order, so they are sorted too.
proof fn lemma_kept_lines_sorted(s: Seq<OcrLine>, n: int)
    requires
        sorted_by_top(s),
        0 <= n <= s.len(),
    ensures
        sorted_by_top(kept_lines(s, n)),
        forall|i: int| 0 <= i < kept_lines(s, n).len() ==> exists|j: int| 0 <= j < n && #[trigger] kept_lines(s, n)[i] == #[trigger] s[j],
    decreases n,
{
    if n > 0 {
        lemma_kept_lines_sorted(s, n - 1);
        let rest = kept_lines(s, n - 1);
        if keeps_line(s, n - 1) {
            let r = rest.push(s[n - 1]);
            assert forall|i: int, j: int| 0 <= i <= j < r.len() implies r[i].y <= r[j].y by {
                if j == r.len() - 1 && i < j {
                    let k = choose|k: int| 0 <= k < n - 1 && rest[i] == #[trigger] s[k];
                    assert(s[k].y <= s[n - 1].y);
                }
            }
            assert forall|i: int| 0 <= i < r.len() implies exists|j: int| 0 <= j < n && #[trigger] r[i] == #[trigger] s[j] by {
                if i < rest.len() {
                    let k = choose|k: int| 0 <= k < n - 1 && rest[i] == #[trigger] s[k];
                    assert(r[i] == s[k]);
                } else {
                    assert(r[i] == s[n - 1]);
                }
            }
        }
    }
}

/// The option lines come out from the top of the screen down.
pub proof fn lemma_option_lines_top_down(lines: Seq<OcrLine>, dx: u32, dy: u32)
    ensures
        sorted_by_top(option_lines(lines, dx, dy)),
{
    let sorted = sort_by_top(lines.map_values(|l: OcrLine| shifted_line(l, dx, dy)));
    lemma_sort_by_top_sorted(lines.map_values(|l: OcrLine| shifted_line(l, dx, dy)));
    lemma_kept_lines_sorted(sorted, sorted.len() as int);
}

/// A line that passes the filter at position `i` of `s` is among the kept
/// lines of the first `n`, and every kept line is such a line.
proof fn lemma_kept_lines_members(s: Seq<OcrLine>, n: int)
    requires
        0 <= n <= s.len(),
    ensures
        forall|i: int| 0 <= i < n && keeps_line(s, i) ==> kept_lines(s, n).contains(#[trigger] s[i]),
        forall|l: OcrLine| kept_lines(s, n).contains(l) ==> exists|j: int| 0 <= j < n && keeps_line(s, j) && #[trigger] s[j] == l,
    decreases n,
{
    if n > 0 {
        lemma_kept_lines_members(s, n - 1);
        let rest = kept_lines(s, n - 1);
        let all = kept_lines(s, n);
        assert forall|i: int| 0 <= i < n && keeps_line(s, i) implies all.contains(#[trigger] s[i]) by {
            if i < n - 1 {
                let k = choose|k: int| 0 <= k < rest.len() && rest[k] == s[i];
                if keeps_line(s, n - 1) {
                    assert(all[k] == rest[k]);
                }
            } else {
                assert(all[all.len() - 1] == s[n - 1]);
            }
        }
        assert forall|l: OcrLine| all.contains(l) implies exists|j: int| 0 <= j < n && keeps_line(s, j) && #[trigger] s[j] == l by {
            let k = choose|k: int| 0 <= k < all.len() && all[k] == l;
            if k < rest.len() {
                assert(rest[k] == l);
                assert(rest.contains(l));
            } else {
                assert(l == s[n - 1]);
            }
        }
    }
}

/// Which lines become options, stated on the lines sorted top to bottom
/// (after moving them by `(dx, dy)`): a line with text of five or more
/// characters, whatever they are, is kept unless the next line is more than
/// 150 pixels lower; so is a shorter line with a character other than an
/// ASCII letter or digit. Every option is such a line: it has text, the next
/// line is at most 150 pixels lower (or there is none), and the text is not
/// a run of fewer than five ASCII letters and digits.
pub proof fn lemma_option_lines_keep_rule(lines: Seq<OcrLine>, dx: u32, dy: u32)
    ensures
        ({
            let s = sort_by_top(lines.map_values(|l: OcrLine| shifted_line(l, dx, dy)));
            &&& forall|i: int|
                0 <= i < s.len() && (#[trigger] s[i]).text@.len() >= 5 && (i + 1 == s.len() || gap_to_next(s, i)
                    <= 150) ==> option_lines(lines, dx, dy).contains(s[i])
            &&& forall|i: int|
                0 <= i < s.len() && (#[trigger] s[i]).text@.len() > 0 && (exists|c: int|
                    0 <= c < s[i].text@.len() && !crate::text::ascii_alnum(s[i].text@[c])) && (i + 1 == s.len()
                    || gap_to_next(s, i) <= 150) ==> option_lines(lines, dx, dy).contains(s[i])
            &&& forall|l: OcrLine|
                option_lines(lines, dx, dy).contains(l) ==> exists|j: int|
                    0 <= j < s.len() && #[trigger] s[j] == l && l.text@.len() > 0 && (j + 1 == s.len()
                        || gap_to_next(s, j) <= 150) && (l.text@.len() >= 5 || exists|c: int|
                        0 <= c < l.text@.len() && !crate::text::ascii_alnum(l.text@[c]))
        }),
{
    let s = sort_by_top(lines.map_values(|l: OcrLine| shifted_line(l, dx, dy)));
    lemma_kept_lines_members(s, s.len() as int);
    assert forall|l: OcrLine| option_lines(lines, dx, dy).contains(l) implies exists|j: int|
        0 <= j < s.len() && #[trigger] s[j] == l && l.text@.len() > 0 && (j + 1 == s.len() || gap_to_next(s, j)
            <= 150) && (l.text@.len() >= 5 || exists|c: int|
            0 <= c < l.text@.len() && !crate::text::ascii_alnum(l.text@[c])) by {
        let j = choose|j: int| 0 <= j < s.len() && keeps_line(s, j) && #[trigger] s[j] == l;
        if !(l.text@.len() >= 5) {
            assert(!is_en_or_num_spec(l.text@));
            let c = choose|c: int| 0 <= c < l.text@.len() && !crate::text::ascii_alnum(#[trigger] l.text@[c]);
        }
    }
}

} // verus!
