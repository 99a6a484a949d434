//! Choices made while teleporting through the big map: which area a map
//! belongs to, which areas stand on their own, and which recognised line of
//! the area list to click.

use vstd::prelude::*;

use crate::geom::Rect;
use crate::task::choose_talk_option::OcrLine;
use crate::text::{chars_of, str_eq, string_from_chars};

verus! {

broadcast use vstd::string::group_string_axioms;

/// The area name shown in the area list for each map other than the main one.
pub open spec fn scene_description_spec(map_name: Seq<char>) -> Option<Seq<char>> {
    if map_name == "Teyvat"@ {
        Some("提瓦特大陆"@)
    } else if map_name == "TheChasm"@ {
        Some("层岩巨渊"@)
    } else if map_name == "Enkanomiya"@ {
        Some("渊下宫"@)
    } else if map_name == "SeaOfBygoneEras"@ {
        Some("旧日之海"@)
    } else if map_name == "AncientSacredMountain"@ {
        Some("远古圣山"@)
    } else if map_name == "TempleOfSpace"@ {
        Some("空之神殿"@)
    } else {
        None
    }
}

/// The area name of a map in the area list; `None` for a map this library does not know.
pub fn scene_description(map_name: &str) -> (r: Option<&'static str>)
    ensures
        match r {
            Some(d) => scene_description_spec(map_name@) == Some(d@),
            None => scene_description_spec(map_name@) is None,
        },
{
    if str_eq(map_name, "Teyvat") {
        Some("提瓦特大陆")
    } else if str_eq(map_name, "TheChasm") {
        Some("层岩巨渊")
    } else if str_eq(map_name, "Enkanomiya") {
        Some("渊下宫")
    } else if str_eq(map_name, "SeaOfBygoneEras") {
        Some("旧日之海")
    } else if str_eq(map_name, "AncientSacredMountain") {
        Some("远古圣山")
    } else if str_eq(map_name, "TempleOfSpace") {
        Some("空之神殿")
    } else {
        None
    }
}

/// Whether an area is a map of its own, which the area list must switch to.
pub open spec fn is_isolated_map_spec(area_desc: Seq<char>) -> bool {
    area_desc == "层岩巨渊"@ || area_desc == "渊下宫"@ || area_desc == "旧日之海"@
        || area_desc == "远古圣山"@ || area_desc == "空之神殿"@
}

/// Whether an area is a map of its own: failing to switch to it is an error,
/// where failing to switch to a region of the main map is not.
pub fn is_isolated_map(area_desc: &str) -> (r: bool)
    ensures
        r == is_isolated_map_spec(area_desc@),
{
    str_eq(area_desc, "层岩巨渊") || str_eq(area_desc, "渊下宫") || str_eq(area_desc, "旧日之海")
        || str_eq(area_desc, "远古圣山") || str_eq(area_desc, "空之神殿")
}

/// A character with the variant form of 宫 that text recognition may read replaced.
pub open spec fn normalize_area_char(c: char) -> char {
    if c == '宮' {
        '宫'
    } else {
        c
    }
}

/// An area name with every 宮 read as 宫.
pub open spec fn normalize_area_name_spec(s: Seq<char>) -> Seq<char> {
    s.map_values(|c: char| normalize_area_char(c))
}

/// Replace each 宮 with 宫, so that recognised text matches the area names.
pub fn normalize_area_name(s: &str) -> (r: String)
    ensures
        r@ == normalize_area_name_spec(s@),
{
    let v = chars_of(s);
    let mut out: Vec<char> = Vec::new();
    let mut i: usize = 0;
    while i < v.len()
        invariant
            0 <= i <= v.len(),
            v@ == s@,
            out@ == v@.take(i as int).map_values(|c: char| normalize_area_char(c)),
        decreases v.len() - i,
    {
        let c = v[i];
        let d = if c == '宮' {
            '宫'
        } else {
            c
        };
        out.push(d);
        assert(v@.take(i + 1) =~= v@.take(i as int).push(c));
        assert(v@.take(i + 1).map_values(|c: char| normalize_area_char(c)) =~= v@.take(
            i as int,
        ).map_values(|c: char| normalize_area_char(c)).push(d));
        i = i + 1;
    }
    assert(v@.take(i as int) =~= v@);
    string_from_chars(&out)
}

/// Whether `needle` occurs in `hay` starting at position `i`.
pub open spec fn occurs_at(hay: Seq<char>, needle: Seq<char>, i: int) -> bool {
    0 <= i && i + needle.len() <= hay.len() && hay.subrange(i, i + needle.len()) == needle
}

/// Whether `needle` occurs somewhere in `hay`.
pub open spec fn contains_text(hay: Seq<char>, needle: Seq<char>) -> bool {
    exists|i: int| occurs_at(hay, needle, i)
}

/// Whether `needle` occurs in `hay` at position `i`.
fn occurs_at_exec(hay: &Vec<char>, needle: &Vec<char>, i: usize) -> (r: bool)
    requires
        i + needle.len() <= hay.len(),
    ensures
        r == occurs_at(hay@, needle@, i as int),
{
    let mut k: usize = 0;
    while k < needle.len()
        invariant
            0 <= k <= needle.len(),
            i + needle.len() <= hay.len(),
            forall|j: int| 0 <= j < k ==> hay@[i + j] == needle@[j],
        decreases needle.len() - k,
    {
        if hay[i + k] != needle[k] {
            proof {
                assert(hay@.subrange(i as int, i + needle.len())[k as int] != needle@[k as int]);
            }
            return false;
        }
        k = k + 1;
    }
    assert(hay@.subrange(i as int, i + needle.len()) =~= needle@);
    true
}

/// Whether `needle` occurs somewhere in `hay`.
pub fn contains_chars(hay: &Vec<char>, needle: &Vec<char>) -> (r: bool)
    ensures
        r == contains_text(hay@, needle@),
{
    if needle.len() > hay.len() {
        proof {
            assert forall|i: int| !occurs_at(hay@, needle@, i) by {}
        }
        return false;
    }
    let last = hay.len() - needle.len();
    let mut i: usize = 0;
    while i < last
        invariant
            last == hay.len() - needle.len(),
            needle.len() <= hay.len(),
            0 <= i <= last,
            forall|j: int| 0 <= j < i ==> !occurs_at(hay@, needle@, j),
        decreases last - i,
    {
        if occurs_at_exec(hay, needle, i) {
            return true;
        }
        i = i + 1;
    }
    if occurs_at_exec(hay, needle, last) {
        return true;
    }
    proof {
        assert forall|j: int| !occurs_at(hay@, needle@, j) by {
            if 0 <= j < i {
            } else {
            }
        }
    }
    false
}

/// Whether a recognised line names the wanted area, once both are normalised.
pub open spec fn names_area(line: OcrLine, area_name: Seq<char>) -> bool {
    contains_text(normalize_area_name_spec(line.text@), normalize_area_name_spec(area_name))
}

/// Whether line `i` is the one clicked: it names the area, no line naming it
/// stands lower, and no earlier line naming it stands as low.
pub open spec fn is_chosen_area_line(lines: Seq<OcrLine>, area_name: Seq<char>, i: int) -> bool {
    &&& 0 <= i < lines.len()
    &&& names_area(lines[i], area_name)
    &&& forall|j: int| 0 <= j < lines.len() && names_area(lines[j], area_name) ==> lines[j].y <= lines[i].y
    &&& forall|j: int| 0 <= j < i && names_area(lines[j], area_name) ==> lines[j].y < lines[i].y
}

/// What the area switch does after reading the area list.
#[derive(Debug, Clone, Copy, PartialEq, Eq, Structural)]
pub enum AreaSwitch {
    /// Click this point.
    Click { x: i32, y: i32 },
    /// No line names the area, and the area is a map of its own: fail.
    Fail,
    /// No line names the area, a region of the main map: go on without switching.
    Skip,
}

/// Whether the box of a line, moved right by `roi_x`, has a centre that fits in `i32`.
pub open spec fn center_fits(l: OcrLine, roi_x: i32) -> bool {
    &&& l.x <= i32::MAX
    &&& l.y + l.height / 2 <= i32::MAX
    &&& i32::MIN <= roi_x + l.x + l.width / 2 <= i32::MAX
}

/// The click of the area switch, given the lines recognised in the area list
/// (their boxes relative to a region that starts `roi_x` pixels from the
/// left of the screen).
pub fn choose_area_click(lines: &Vec<OcrLine>, area_name: &str, roi_x: i32) -> (r: AreaSwitch)
    requires
        forall|i: int| 0 <= i < lines.len() ==> center_fits(#[trigger] lines@[i], roi_x),
    ensures
        match r {
            AreaSwitch::Click { x, y } => exists|i: int|
                is_chosen_area_line(lines@, area_name@, i) && x == roi_x + lines@[i].x + lines@[i].width / 2
                    && y == lines@[i].y + lines@[i].height / 2,
            AreaSwitch::Fail => (forall|i: int| 0 <= i < lines.len() ==> !names_area(#[trigger] lines@[i], area_name@))
                && is_isolated_map_spec(area_name@),
            AreaSwitch::Skip => (forall|i: int| 0 <= i < lines.len() ==> !names_area(#[trigger] lines@[i], area_name@))
                && !is_isolated_map_spec(area_name@),
        },
{
    let target_s = normalize_area_name(area_name);
    let target = chars_of(target_s.as_str());
    let mut best: Option<usize> = None;
    let mut i: usize = 0;
    while i < lines.len()
        invariant
            0 <= i <= lines.len(),
            target@ == normalize_area_name_spec(area_name@),
            match best {
                None => forall|j: int| 0 <= j < i ==> !names_area(#[trigger] lines@[j], area_name@),
                Some(b) => {
                    &&& b < i
                    &&& names_area(lines@[b as int], area_name@)
                    &&& forall|j: int| 0 <= j < i && names_area(#[trigger] lines@[j], area_name@)
                        ==> lines@[j].y <= lines@[b as int].y
                    &&& forall|j: int| 0 <= j < b && names_area(#[trigger] lines@[j], area_name@)
                        ==> lines@[j].y < lines@[b as int].y
                },
            },
        decreases lines.len() - i,
    {
        let text_s = normalize_area_name(lines[i].text.as_str());
        let text = chars_of(text_s.as_str());
        if contains_chars(&text, &target) {
            match best {
                None => {
                    best = Some(i);
                },
                Some(b) => {
                    if lines[i].y > lines[b].y {
                        best = Some(i);
                    }
                },
            }
        }
        i = i + 1;
    }
    match best {
        Some(b) => {
            let l = &lines[b];
            proof {
                assert(center_fits(lines@[b as int], roi_x));
                assert(is_chosen_area_line(lines@, area_name@, b as int));
            }
            let x = roi_x + l.x as i32 + (l.width / 2) as i32;
            let y = l.y as i32 + (l.height / 2) as i32;
            assert(x == roi_x + lines@[b as int].x + lines@[b as int].width / 2);
            assert(y == lines@[b as int].y + lines@[b as int].height / 2);
            AreaSwitch::Click { x, y }
        },
        None => {
            if is_isolated_map(area_name) {
                AreaSwitch::Fail
            } else {
                AreaSwitch::Skip
            }
        },
    }
}

/// The area the big map switches to before teleporting on a map other than
/// the main one: its area name, or nothing for an unknown map.
pub fn area_for_map(map_name: &str) -> (r: Option<&'static str>)
    ensures
        match r {
            Some(d) => map_name@ != "Teyvat"@ && scene_description_spec(map_name@) == Some(d@),
            None => map_name@ == "Teyvat"@ || scene_description_spec(map_name@) is None,
        },
{
    if str_eq(map_name, "Teyvat") {
        None
    } else {
        scene_description(map_name)
    }
}

/// The random number generator of the current thread.
#[verifier::external_type_specification]
#[verifier::external_body]
pub struct ExThreadRng(rand::rngs::ThreadRng);

/// `rand::thread_rng`: the current thread's generator. Nothing is stated of it.
#[verifier::external_body]
fn current_thread_rng() -> (r: rand::rngs::ThreadRng) {
    rand::thread_rng()
}

/// `Rng::gen_range` over `lo..=hi`: a number drawn from the range, which
/// must not be empty. Which number comes out is left unsaid.
#[verifier::external_body]
fn random_in(rng: &mut rand::rngs::ThreadRng, lo: i32, hi: i32) -> (r: i32)
    requires
        lo <= hi,
    ensures
        lo <= r <= hi,
{
    rand::Rng::gen_range(rng, lo..=hi)
}

/// The screen the big map is dragged on, in pixels.
pub const MAP_SCREEN_W: i32 = 1920;
pub const MAP_SCREEN_H: i32 = 1080;

/// How close to the screen centre a target must be for the map to stop moving.
pub const MAP_TOLERANCE_PX: i32 = 200;

/// Whether a target this far from the screen centre is close enough:
/// closer than the tolerance.
pub open spec fn map_target_centered(off_x: int, off_y: int) -> bool {
    off_x * off_x + off_y * off_y < MAP_TOLERANCE_PX * MAP_TOLERANCE_PX
}

/// A drag of the big map with the mouse.
#[derive(Debug, Clone, Copy, PartialEq, Eq, Structural)]
pub struct MapDrag {
    pub from_x: i32,
    pub from_y: i32,
    pub to_x: i32,
    pub to_y: i32,
}

/// `v` moved into `[lo, hi]`.
pub open spec fn clamp_to(v: int, lo: int, hi: int) -> int {
    if v < lo {
        lo
    } else if v > hi {
        hi
    } else {
        v
    }
}

/// Whether a drag brings a target seen at `(target_x, target_y)` towards
/// the centre: it starts within a sixth of the screen of the centre, and
/// moves the map by the target's offset from the centre, at most 700
/// pixels across and 500 down.
pub open spec fn is_map_drag_for(d: MapDrag, target_x: int, target_y: int) -> bool {
    let cx = MAP_SCREEN_W / 2;
    let cy = MAP_SCREEN_H / 2;
    &&& -(MAP_SCREEN_W / 6) <= d.from_x - cx <= MAP_SCREEN_W / 6
    &&& -(MAP_SCREEN_H / 6) <= d.from_y - cy <= MAP_SCREEN_H / 6
    &&& d.from_x - d.to_x == clamp_to(target_x - cx, -700, 700)
    &&& d.from_y - d.to_y == clamp_to(target_y - cy, -500, 500)
}

/// The next drag that brings the map target, seen on the screen at
/// `(target_x, target_y)`, towards the centre; `None` once it is close
/// enough. The drag starts at a random point near the centre.
pub fn plan_map_drag(target_x: i32, target_y: i32) -> (r: Option<MapDrag>)
    ensures
        match r {
            None => map_target_centered(target_x - MAP_SCREEN_W / 2, target_y - MAP_SCREEN_H / 2),
            Some(d) => !map_target_centered(target_x - MAP_SCREEN_W / 2, target_y - MAP_SCREEN_H / 2)
                && is_map_drag_for(d, target_x as int, target_y as int),
        },
{
    let cx: i64 = 960;
    let cy: i64 = 540;
    let off_x = target_x as i64 - cx;
    let off_y = target_y as i64 - cy;
    assert(off_x * off_x <= 0x4_0000_0000_0000_0000) by (nonlinear_arith)
        requires
            -0x1_0000_0000 <= off_x <= 0x1_0000_0000,
    ;
    assert(off_y * off_y <= 0x4_0000_0000_0000_0000) by (nonlinear_arith)
        requires
            -0x1_0000_0000 <= off_y <= 0x1_0000_0000,
    ;
    assert(off_x * off_x >= 0) by (nonlinear_arith);
    assert(off_y * off_y >= 0) by (nonlinear_arith);
    let sq = (off_x as i128) * (off_x as i128) + (off_y as i128) * (off_y as i128);
    if sq < 40000 {
        return None;
    }
    let dx: i64 = if off_x < -700 {
        -700
    } else if off_x > 700 {
        700
    } else {
        off_x
    };
    let dy: i64 = if off_y < -500 {
        -500
    } else if off_y > 500 {
        500
    } else {
        off_y
    };
    let mut rng = current_thread_rng();
    let jitter_x = random_in(&mut rng, -320, 320);
    let jitter_y = random_in(&mut rng, -180, 180);
    let from_x = 960 + jitter_x;
    let from_y = 540 + jitter_y;
    let to_x = from_x - dx as i32;
    let to_y = from_y - dy as i32;
    Some(MapDrag { from_x, from_y, to_x, to_y })
}

/// How many map readings in a row may fail or jump before moving the map is given up.
pub const MAP_MATCH_MISS_LIMIT: u32 = 5;

/// Count a map reading after a drag: a failed or implausible reading
/// (`accepted` false) extends the run of misses, a good one ends it. The
/// answer says whether the run is past the limit.
pub fn on_map_reading(misses: &mut u32, accepted: bool) -> (give_up: bool)
    requires
        *old(misses) <= MAP_MATCH_MISS_LIMIT,
    ensures
        *final(misses) == if accepted {
            0
        } else {
            *old(misses) + 1
        },
        give_up == (*final(misses) > MAP_MATCH_MISS_LIMIT),
{
    if accepted {
        *misses = 0;
    } else {
        *misses = *misses + 1;
    }
    *misses > MAP_MATCH_MISS_LIMIT
}

/// The larger of `a` and `b`.
pub open spec fn max_of(a: int, b: int) -> int {
    if a > b {
        a
    } else {
        b
    }
}

/// The smaller of `a` and `b`.
pub open spec fn min_of(a: int, b: int) -> int {
    if a < b {
        a
    } else {
        b
    }
}

/// The strip right of an option icon that holds the option's name: from
/// the icon's right edge, 8 pixels above it to 8 below, 200 pixels wide, cut
/// to a screen of `cols` by `rows`; `None` where nothing of it is left.
pub open spec fn option_strip_spec(icon: Rect, cols: int, rows: int) -> Option<Rect> {
    let x = max_of(icon.x + icon.width, 0);
    let y = max_of(icon.y - 8, 0);
    let w = min_of(200, max_of(cols - x, 0));
    let h = min_of(icon.height + 16, max_of(rows - y, 0));
    if w <= 0 || h <= 0 {
        None
    } else {
        Some(Rect { x: x as i32, y: y as i32, width: w as i32, height: h as i32 })
    }
}

/// The strip holding the name of the option next to `icon` (see [`option_strip_spec`]).
pub fn option_strip(icon: Rect, cols: i32, rows: i32) -> (r: Option<Rect>)
    ensures
        r == option_strip_spec(icon, cols as int, rows as int),
{
    let x0 = icon.x as i64 + icon.width as i64;
    let x: i64 = if x0 > 0 {
        x0
    } else {
        0
    };
    let y0 = icon.y as i64 - 8;
    let y: i64 = if y0 > 0 {
        y0
    } else {
        0
    };
    let room_w0 = cols as i64 - x;
    let room_w: i64 = if room_w0 > 0 {
        room_w0
    } else {
        0
    };
    let w: i64 = if 200 < room_w {
        200
    } else {
        room_w
    };
    let room_h0 = rows as i64 - y;
    let room_h: i64 = if room_h0 > 0 {
        room_h0
    } else {
        0
    };
    let h0 = icon.height as i64 + 16;
    let h: i64 = if h0 < room_h {
        h0
    } else {
        room_h
    };
    if w <= 0 || h <= 0 {
        None
    } else {
        Some(Rect { x: x as i32, y: y as i32, width: w as i32, height: h as i32 })
    }
}

/// The point of a strip that is clicked: its centre, rounded towards its top-left corner.
pub open spec fn strip_click_spec(r: Rect) -> (int, int) {
    (r.x + r.width / 2, r.y + r.height / 2)
}

/// The point of a strip that is clicked.
pub fn strip_click(r: Rect) -> (p: (i32, i32))
    requires
        r.width >= 0,
        r.height >= 0,
        r.x + r.width / 2 <= i32::MAX,
        r.y + r.height / 2 <= i32::MAX,
    ensures
        p.0 == strip_click_spec(r).0,
        p.1 == strip_click_spec(r).1,
{
    (r.x + r.width / 2, r.y + r.height / 2)
}

/// `s` without its `>` characters.
pub open spec fn without_arrows(s: Seq<char>) -> Seq<char>
    decreases s.len(),
{
    if s.len() == 0 {
        s
    } else if s.last() == '>' {
        without_arrows(s.drop_last())
    } else {
        without_arrows(s.drop_last()).push(s.last())
    }
}

/// The name read next to an option icon: the first line of more than one
/// character, with its `>` characters taken out; empty where there is none.
pub open spec fn option_label_spec(lines: Seq<OcrLine>) -> Seq<char>
    decreases lines.len(),
{
    if lines.len() == 0 {
        Seq::empty()
    } else if lines[0].text@.len() > 1 {
        without_arrows(lines[0].text@)
    } else {
        option_label_spec(lines.drop_first())
    }
}

/// The name read next to an option icon (see [`option_label_spec`]); the
/// option is clicked only where it is not empty.
pub fn option_label(lines: &Vec<OcrLine>) -> (r: String)
    ensures
        r@ == option_label_spec(lines@),
{
    let mut i: usize = 0;
    assert(lines@.skip(0) =~= lines@);
    while i < lines.len()
        invariant
            0 <= i <= lines.len(),
            option_label_spec(lines@) == option_label_spec(lines@.skip(i as int)),
        decreases lines.len() - i,
    {
        let t = chars_of(lines[i].text.as_str());
        assert(lines@.skip(i as int)[0] == lines@[i as int]);
        if t.len() > 1 {
            let mut out: Vec<char> = Vec::new();
            let mut k: usize = 0;
            while k < t.len()
                invariant
                    0 <= k <= t.len(),
                    out@ == without_arrows(t@.take(k as int)),
                decreases t.len() - k,
            {
                assert(t@.take(k + 1).drop_last() =~= t@.take(k as int));
                if t[k] != '>' {
                    out.push(t[k]);
                }
                k = k + 1;
            }
            assert(t@.take(k as int) =~= t@);
            return string_from_chars(&out);
        }
        assert(lines@.skip(i as int).drop_first() =~= lines@.skip(i + 1));
        i = i + 1;
    }
    String::new()
}

} // verus!
