//! Decisions of the fishing steps that work on the boxes the detector
//! found: turning towards the pond, where the interaction prompt's text
//! lies, where the tension bar is, and when to hold the reel.

use vstd::prelude::*;

use crate::geom::Rect;
use crate::navigate::map::splits::trunc_div;
use crate::task::fishing::{
    big_fish_table, first_fish_named, replace_underscores, underscores_to_spaces, BaitType, BigFishType,
    FishKind, RodState,
};
use crate::navigate::tp::{contains_chars, contains_text};
use crate::text::{chars_eq_str, chars_of};

verus! {

/// Which way to turn the view so that the pond is in front.
#[derive(Debug, Clone, Copy, PartialEq, Eq, Structural)]
pub enum PondAim {
    /// The pond lies in the right quarter of the screen.
    TurnRight,
    /// The pond lies in the left quarter of the screen.
    TurnLeft,
    /// The pond is in front.
    Centered,
}

/// Which way to turn, for a pond box on a screen `screen_w` pixels wide.
pub open spec fn pond_aim_spec(pond: Rect, screen_w: int) -> PondAim {
    if pond.x > screen_w * 3 / 4 {
        PondAim::TurnRight
    } else if pond.x + pond.width < screen_w / 4 {
        PondAim::TurnLeft
    } else {
        PondAim::Centered
    }
}

/// Which way to turn the view so that the pond is in front: right when the
/// pond starts beyond three quarters of the screen, left when it ends before
/// one quarter.
pub fn pond_aim(pond: Rect, screen_w: i32) -> (a: PondAim)
    requires
        screen_w >= 0,
    ensures
        a == pond_aim_spec(pond, screen_w as int),
{
    let w = screen_w as i64;
    let three_fourth = w * 3 / 4;
    let one_fourth = w / 4;
    if (pond.x as i64) > three_fourth {
        PondAim::TurnRight
    } else if (pond.x as i64) + (pond.width as i64) < one_fourth {
        PondAim::TurnLeft
    } else {
        PondAim::Centered
    }
}

/// `v` moved into `[lo, hi]`.
pub open spec fn clamp_int(v: int, lo: int, hi: int) -> int {
    if v < lo {
        lo
    } else if v > hi {
        hi
    } else {
        v
    }
}

/// The smaller of `a` and `b`.
pub open spec fn min_int(a: int, b: int) -> int {
    if a < b {
        a
    } else {
        b
    }
}

/// Where the text next to an interaction prompt lies: from 115 to 400
/// pixels right of the prompt's left edge, as high as the prompt, cut to
/// the screen; `None` where nothing of it is on the screen.
pub open spec fn interact_text_roi_spec(prompt: Rect, scr_w: int, scr_h: int) -> Option<Rect> {
    let tx = clamp_int(prompt.x + 115, 0, scr_w - 1);
    let ty = clamp_int(prompt.y as int, 0, scr_h - 1);
    let tw = min_int(400 - 115, scr_w - tx);
    let th = min_int(prompt.height as int, scr_h - ty);
    if tw > 0 && th > 0 {
        Some(Rect { x: tx as i32, y: ty as i32, width: tw as i32, height: th as i32 })
    } else {
        None
    }
}

/// The box of the text next to an interaction prompt found at `prompt` (see
/// [`interact_text_roi_spec`]).
pub fn interact_text_roi(prompt: Rect, scr_w: i32, scr_h: i32) -> (r: Option<Rect>)
    requires
        scr_w >= 1,
        scr_h >= 1,
    ensures
        r == interact_text_roi_spec(prompt, scr_w as int, scr_h as int),
{
    let x = prompt.x as i64 + 115;
    let tx: i64 = if x < 0 {
        0
    } else if x > scr_w as i64 - 1 {
        scr_w as i64 - 1
    } else {
        x
    };
    let y = prompt.y as i64;
    let ty: i64 = if y < 0 {
        0
    } else if y > scr_h as i64 - 1 {
        scr_h as i64 - 1
    } else {
        y
    };
    let room_w = scr_w as i64 - tx;
    let tw: i64 = if 285 < room_w {
        285
    } else {
        room_w
    };
    let room_h = scr_h as i64 - ty;
    let th: i64 = if (prompt.height as i64) < room_h {
        prompt.height as i64
    } else {
        room_h
    };
    if tw > 0 && th > 0 {
        Some(Rect { x: tx as i32, y: ty as i32, width: tw as i32, height: th as i32 })
    } else {
        None
    }
}

/// `v / d` rounded toward zero, for a positive `d`.
fn div_trunc(v: i64, d: i64) -> (q: i64)
    requires
        d > 0,
        v > i64::MIN,
    ensures
        q == trunc_div(v as int, d as int),
{
    if v >= 0 {
        v / d
    } else {
        let n = -v;
        -(n / d)
    }
}

/// Whether the interaction prompt read next to the icon starts fishing: its
/// text holds 钓鱼, so pressing the interact key starts it.
pub fn prompt_starts_fishing(text: &str) -> (r: bool)
    ensures
        r == contains_text(text@, "钓鱼"@),
{
    let hay = chars_of(text);
    let needle = chars_of("钓鱼");
    contains_chars(&hay, &needle)
}

/// How long after pressing the interact key, or clicking the start button,
/// the same is not done again, in milliseconds.
pub const ENTER_REPEAT_MS: u64 = 3000;

/// What the caller does after a frame of entering the fishing mode.
#[derive(Debug, Clone, Copy, PartialEq, Eq, Structural)]
pub enum EnterAction {
    /// Stop: the task was cancelled.
    Cancel,
    /// Stop: the mode was not entered in time.
    TimedOut,
    /// Press the interact key, and look again shortly.
    PressInteract,
    /// Click the start button (identifying the equipped bait first where
    /// `identify_bait` says so), and look again shortly.
    ClickStart { identify_bait: bool },
    /// The fishing mode is on.
    Entered,
    /// Nothing to do yet: look again.
    Wait,
}

/// The timers of entering the fishing mode, in milliseconds since it began.
pub struct EnterTracker {
    /// Until when the interact key is not pressed again.
    pub press_until: Option<u64>,
    /// Until when the start button is not clicked again.
    pub click_until: Option<u64>,
    /// When entering is given up.
    pub deadline: u64,
}

/// Whether a timer that runs until `until` lets an action happen at `now`.
pub open spec fn timer_free(until: Option<u64>, now: u64) -> bool {
    match until {
        None => true,
        Some(t) => now >= t,
    }
}

/// `now + ENTER_REPEAT_MS`, kept within `u64`.
pub open spec fn repeat_end(now: u64) -> u64 {
    if now + ENTER_REPEAT_MS <= u64::MAX { (now + ENTER_REPEAT_MS) as u64 } else { u64::MAX }
}

impl EnterTracker {
    /// Timers for entering within `overall_ms`.
    pub fn new(overall_ms: u64) -> (t: Self)
        ensures
            t.press_until is None,
            t.click_until is None,
            t.deadline == overall_ms,
    {
        EnterTracker { press_until: None, click_until: None, deadline: overall_ms }
    }

    /// One frame of entering the fishing mode, at `now` ms: cancellation and
    /// the deadline stop it; the interact key is pressed where its timer is
    /// free and the prompt's text (`prompt`, where the prompt and its text
    /// were found) holds 钓鱼; otherwise the start button is clicked where
    /// its timer is free and it is shown (the view is then to be turned down
    /// before the first cast, on `board`); otherwise the exit button shows
    /// that the mode is on.
    pub fn enter_frame(
        &mut self,
        board: &mut Blackboard,
        cancelled: bool,
        now: u64,
        prompt: Option<&str>,
        start_button: bool,
        exit_button: bool,
    ) -> (a: EnterAction)
        ensures
            final(self).deadline == old(self).deadline,
            final(board).selected_bait == old(board).selected_bait,
            final(board).abort == old(board).abort,
            ({
                let press = timer_free(old(self).press_until, now) && (prompt matches Some(t)
                    && contains_text(t@, "钓鱼"@));
                let click = timer_free(old(self).click_until, now) && start_button;
                if cancelled {
                    a == EnterAction::Cancel && *final(self) == *old(self) && *final(board) == *old(board)
                } else if now >= old(self).deadline {
                    a == EnterAction::TimedOut && *final(self) == *old(self) && *final(board) == *old(board)
                } else if press {
                    &&& a == EnterAction::PressInteract
                    &&& final(self).press_until == Some(repeat_end(now))
                    &&& final(self).click_until == old(self).click_until
                    &&& *final(board) == *old(board)
                } else if click {
                    &&& a == EnterAction::ClickStart { identify_bait: old(board).selected_bait is None }
                    &&& final(self).click_until == Some(repeat_end(now))
                    &&& final(self).press_until == old(self).press_until
                    &&& final(board).pitch_reset
                } else {
                    &&& a == if exit_button { EnterAction::Entered } else { EnterAction::Wait }
                    &&& *final(self) == *old(self)
                    &&& *final(board) == *old(board)
                }
            }),
    {
        if cancelled {
            return EnterAction::Cancel;
        }
        if now >= self.deadline {
            return EnterAction::TimedOut;
        }
        let press_free = match self.press_until {
            None => true,
            Some(t) => now >= t,
        };
        if press_free {
            if let Some(text) = prompt {
                if prompt_starts_fishing(text) {
                    self.press_until = Some(now.saturating_add(ENTER_REPEAT_MS));
                    return EnterAction::PressInteract;
                }
            }
        }
        let click_free = match self.click_until {
            None => true,
            Some(t) => now >= t,
        };
        if click_free && start_button {
            let identify_bait = board.selected_bait.is_none();
            board.pitch_reset = true;
            self.click_until = Some(now.saturating_add(ENTER_REPEAT_MS));
            return EnterAction::ClickStart { identify_bait };
        }
        if exit_button {
            EnterAction::Entered
        } else {
            EnterAction::Wait
        }
    }
}

/// The box in which the tension bar is tracked, from the two bars found in
/// the top half of the screen (`top_w` pixels wide, in a screen `img_w` by
/// `img_h`): the narrower is the cursor, the wider the bar to its right.
/// `None` where they differ in height by more than 10 pixels, do not lie as
/// a cursor and its bar do, or the box falls off the screen.
pub open spec fn fish_box_spec(a: Rect, b: Rect, top_w: int, img_w: int, img_h: int) -> Option<Rect> {
    let cur = if a.width < b.width { a } else { b };
    let right = if a.width < b.width { b } else { a };
    let half = trunc_div(top_w, 2);
    let cur_end = cur.x + cur.width;
    let dh = cur.height - right.height;
    if dh > 10 || dh < -10 {
        None
    } else if right.x < cur.x || cur.width > right.width || cur_end > half || cur_end > right.x
        - trunc_div(right.width as int, 2) || cur_end > half - right.width {
        None
    } else {
        let h_extra = cur.height as int;
        let v_extra = trunc_div(cur.height as int, 4);
        let rx = cur.x - h_extra;
        let ry = cur.y - v_extra;
        let rw = (half - cur.x) * 2 + h_extra * 2;
        let rh = cur.height + v_extra * 2;
        let x1 = if rx < 0 { 0 } else { rx };
        let w1 = if rx < 0 { rw + rx } else { rw };
        let y1 = if ry < 0 { 0 } else { ry };
        let h1 = if ry < 0 { rh + ry } else { rh };
        let w2 = if x1 + w1 > img_w { img_w - x1 } else { w1 };
        let h2 = if y1 + h1 > img_h { img_h - y1 } else { h1 };
        if w2 <= 0 || h2 <= 0 {
            None
        } else {
            Some(Rect { x: x1 as i32, y: y1 as i32, width: w2 as i32, height: h2 as i32 })
        }
    }
}

/// The box in which the tension bar is tracked (see [`fish_box_spec`]).
pub fn fish_box_from_bars(a: Rect, b: Rect, top_w: i32, img_w: i32, img_h: i32) -> (r: Option<Rect>)
    requires
        img_w >= 0,
        img_h >= 0,
    ensures
        r == fish_box_spec(a, b, top_w as int, img_w as int, img_h as int),
{
    let (cur, right) = if a.width < b.width {
        (a, b)
    } else {
        (b, a)
    };
    let half = div_trunc(top_w as i64, 2);
    let cur_end = cur.x as i64 + cur.width as i64;
    let dh = cur.height as i64 - right.height as i64;
    if dh > 10 || dh < -10 {
        return None;
    }
    let right_half = div_trunc(right.width as i64, 2);
    if (right.x as i64) < (cur.x as i64) || cur.width > right.width || cur_end > half || cur_end
        > right.x as i64 - right_half || cur_end > half - right.width as i64 {
        return None;
    }
    let h_extra = cur.height as i64;
    let v_extra = div_trunc(cur.height as i64, 4);
    let rx = cur.x as i64 - h_extra;
    let ry = cur.y as i64 - v_extra;
    let rw = (half - cur.x as i64) * 2 + h_extra * 2;
    let rh = cur.height as i64 + v_extra * 2;
    let x1: i64 = if rx < 0 {
        0
    } else {
        rx
    };
    let w1: i64 = if rx < 0 {
        rw + rx
    } else {
        rw
    };
    let y1: i64 = if ry < 0 {
        0
    } else {
        ry
    };
    let h1: i64 = if ry < 0 {
        rh + ry
    } else {
        rh
    };
    let w2: i64 = if x1 + w1 > img_w as i64 {
        img_w as i64 - x1
    } else {
        w1
    };
    let h2: i64 = if y1 + h1 > img_h as i64 {
        img_h as i64 - y1
    } else {
        h1
    };
    if w2 <= 0 || h2 <= 0 {
        None
    } else {
        Some(Rect { x: x1 as i32, y: y1 as i32, width: w2 as i32, height: h2 as i32 })
    }
}

/// The order a list of bars is sorted in.
#[derive(Debug, Clone, Copy, PartialEq, Eq, Structural)]
pub enum BarKey {
    /// Tallest first.
    HeightDescending,
    /// Leftmost first.
    X,
}

/// The sort key of a bar: smaller keys come first.
pub open spec fn bar_key(k: BarKey, r: Rect) -> int {
    match k {
        BarKey::HeightDescending => 0 - r.height,
        BarKey::X => r.x as int,
    }
}

/// How many bars of `s` have a key no greater than `v`.
pub open spec fn count_key_le(s: Seq<Rect>, k: BarKey, v: int) -> nat
    decreases s.len(),
{
    if s.len() == 0 {
        0
    } else {
        count_key_le(s.drop_last(), k, v) + if bar_key(k, s.last()) <= v {
            1nat
        } else {
            0nat
        }
    }
}

/// `s` sorted by key `k`, bars with equal keys kept in their order: each bar
/// is put after those of the bars before it whose key is no greater.
pub open spec fn sort_bars(s: Seq<Rect>, k: BarKey) -> Seq<Rect>
    decreases s.len(),
{
    if s.len() == 0 {
        s
    } else {
        let rest = sort_bars(s.drop_last(), k);
        rest.insert(count_key_le(rest, k, bar_key(k, s.last())) as int, s.last())
    }
}

proof fn lemma_count_key_le_bound(s: Seq<Rect>, k: BarKey, v: int)
    ensures
        count_key_le(s, k, v) <= s.len(),
    decreases s.len(),
{
    if s.len() > 0 {
        lemma_count_key_le_bound(s.drop_last(), k, v);
    }
}

proof fn lemma_sort_bars_len(s: Seq<Rect>, k: BarKey)
    ensures
        sort_bars(s, k).len() == s.len(),
    decreases s.len(),
{
    if s.len() > 0 {
        lemma_sort_bars_len(s.drop_last(), k);
        lemma_count_key_le_bound(sort_bars(s.drop_last(), k), k, bar_key(k, s.last()));
    }
}

/// The key of a bar, computed.
fn bar_key_exec(k: BarKey, r: Rect) -> (v: i64)
    ensures
        v == bar_key(k, r),
{
    match k {
        BarKey::HeightDescending => 0 - r.height as i64,
        BarKey::X => r.x as i64,
    }
}

/// The bars of `s` sorted by key `k`, bars with equal keys in their order.
pub fn sorted_bars(s: &Vec<Rect>, k: BarKey) -> (r: Vec<Rect>)
    ensures
        r@ == sort_bars(s@, k),
{
    let mut out: Vec<Rect> = Vec::new();
    let mut i: usize = 0;
    while i < s.len()
        invariant
            0 <= i <= s.len(),
            out@ == sort_bars(s@.take(i as int), k),
        decreases s.len() - i,
    {
        let r = s[i];
        let v = bar_key_exec(k, r);
        let mut n: usize = 0;
        let mut j: usize = 0;
        proof {
            lemma_sort_bars_len(s@.take(i as int), k);
        }
        while j < out.len()
            invariant
                0 <= j <= out.len(),
                n <= j,
                n == count_key_le(out@.take(j as int), k, v as int),
            decreases out.len() - j,
        {
            assert(out@.take(j + 1).drop_last() =~= out@.take(j as int));
            if bar_key_exec(k, out[j]) <= v {
                n = n + 1;
            }
            j = j + 1;
        }
        assert(out@.take(j as int) =~= out@);
        proof {
            assert(s@.take(i + 1).drop_last() =~= s@.take(i as int));
            assert(s@.take(i + 1).last() == r);
        }
        out.insert(n, r);
        i = i + 1;
    }
    assert(s@.take(i as int) =~= s@);
    out
}

/// The bars the reel decision looks at: the three tallest where more than
/// three were found (equal heights in their order), otherwise all of them.
pub open spec fn reel_bars(s: Seq<Rect>) -> Seq<Rect> {
    if s.len() > 3 {
        sort_bars(s, BarKey::HeightDescending).take(3)
    } else {
        s
    }
}

/// Whether the reel is held after a frame with the bars `s`, where it was
/// held (`held`) before. With two bars the narrower is the cursor: the reel
/// is held while it is left of the other, unless that one is less than ten
/// times as wide, which is ignored. With three, sorted from the left, the
/// middle one is the cursor: the reel is held while the gap from the right
/// end of the cursor to the right end of the bar exceeds the gap from the
/// left bar to the cursor. Any other number of bars changes nothing.
pub open spec fn reel_held_spec(s: Seq<Rect>, held: bool) -> bool {
    let t = reel_bars(s);
    if t.len() == 2 {
        let cursor = if t[0].width < t[1].width { t[0] } else { t[1] };
        let target = if t[0].width < t[1].width { t[1] } else { t[0] };
        if target.width < cursor.width * 10 {
            held
        } else {
            cursor.x < target.x
        }
    } else if t.len() == 3 {
        let u = sort_bars(t, BarKey::X);
        let dist_right = (u[2].x + u[2].width) - (u[1].x + u[1].width);
        let dist_left = u[1].x - u[0].x;
        !(dist_right <= dist_left)
    } else {
        held
    }
}

/// Whether the reel is held after a frame with the bars `bars` (see
/// [`reel_held_spec`]). The caller presses or releases the button where the
/// answer differs from `held`.
pub fn reel_held(bars: &Vec<Rect>, held: bool) -> (r: bool)
    ensures
        r == reel_held_spec(bars@, held),
{
    let t: Vec<Rect> = if bars.len() > 3 {
        let sorted = sorted_bars(bars, BarKey::HeightDescending);
        proof {
            lemma_sort_bars_len(bars@, BarKey::HeightDescending);
        }
        let mut top: Vec<Rect> = Vec::new();
        top.push(sorted[0]);
        top.push(sorted[1]);
        top.push(sorted[2]);
        assert(top@ =~= sort_bars(bars@, BarKey::HeightDescending).take(3));
        top
    } else {
        let mut all: Vec<Rect> = Vec::new();
        let mut i: usize = 0;
        while i < bars.len()
            invariant
                0 <= i <= bars.len(),
                all@ == bars@.take(i as int),
            decreases bars.len() - i,
        {
            all.push(bars[i]);
            assert(bars@.take(i + 1) =~= bars@.take(i as int).push(bars@[i as int]));
            i = i + 1;
        }
        assert(bars@.take(i as int) =~= bars@);
        all
    };
    assert(t@ == reel_bars(bars@));
    if t.len() == 2 {
        let (cursor, target) = if t[0].width < t[1].width {
            (t[0], t[1])
        } else {
            (t[1], t[0])
        };
        if (target.width as i64) < (cursor.width as i64) * 10 {
            held
        } else {
            cursor.x < target.x
        }
    } else if t.len() == 3 {
        let u = sorted_bars(&t, BarKey::X);
        proof {
            lemma_sort_bars_len(t@, BarKey::X);
        }
        let dist_right = (u[2].x as i64 + u[2].width as i64) - (u[1].x as i64 + u[1].width as i64);
        let dist_left = u[1].x as i64 - u[0].x as i64;
        !(dist_right <= dist_left)
    } else {
        held
    }
}

/// A fish the detector found, with its kind and box.
#[derive(Debug, Clone, Copy)]
pub struct OneFish {
    pub fish_type: BigFishType,
    pub rect: Rect,
}

/// The fish of a pond, where to cast, and the box around all the fish.
pub struct Fishpond {
    /// The fish, most confident detection first.
    pub fishes: Vec<OneFish>,
    /// Where the bait would land.
    pub target_rect: Option<Rect>,
    /// The smallest box around all the fish; `None` for an empty pond.
    pub fishpond_rect: Option<Rect>,
}

/// Twice the centre of a box, so that it stays whole.
pub open spec fn doubled_center(r: Rect) -> (int, int) {
    (2 * r.x + r.width, 2 * r.y + r.height)
}

/// Four times the squared distance between the centres of two boxes.
pub open spec fn center_dist(a: Rect, b: Rect) -> int {
    let (ax, ay) = doubled_center(a);
    let (bx, by) = doubled_center(b);
    (ax - bx) * (ax - bx) + (ay - by) * (ay - by)
}

/// Whether a fish takes the equipped bait; with no bait known, every fish does.
pub open spec fn takes_bait(f: OneFish, bait: Option<BaitType>) -> bool {
    match bait {
        None => true,
        Some(b) => f.fish_type.bait == b,
    }
}

/// Whether fish `k` is the one to cast at: it takes the bait, no fish that
/// takes it is closer to the landing spot, and no earlier one is as close.
pub open spec fn is_nearest_fish(fishes: Seq<OneFish>, bait: Option<BaitType>, landing: Rect, k: int) -> bool {
    &&& 0 <= k < fishes.len()
    &&& takes_bait(fishes[k], bait)
    &&& forall|j: int| 0 <= j < fishes.len() && takes_bait(#[trigger] fishes[j], bait)
        ==> center_dist(fishes[k].rect, landing) <= center_dist(fishes[j].rect, landing)
    &&& forall|j: int| 0 <= j < k && takes_bait(#[trigger] fishes[j], bait)
        ==> center_dist(fishes[j].rect, landing) > center_dist(fishes[k].rect, landing)
}

/// Four times the squared distance between the centres of two boxes, computed.
fn center_dist_exec(a: Rect, b: Rect) -> (d: i128)
    ensures
        d == center_dist(a, b),
{
    let dx: i128 = (2 * (a.x as i128) + a.width as i128) - (2 * (b.x as i128) + b.width as i128);
    let dy: i128 = (2 * (a.y as i128) + a.height as i128) - (2 * (b.y as i128) + b.height as i128);
    assert(dx * dx <= 0x40_0000_0000_0000_0000) by (nonlinear_arith)
        requires
            -0x8_0000_0000 <= dx <= 0x8_0000_0000,
    ;
    assert(dy * dy <= 0x40_0000_0000_0000_0000) by (nonlinear_arith)
        requires
            -0x8_0000_0000 <= dy <= 0x8_0000_0000,
    ;
    assert(dx * dx >= 0) by (nonlinear_arith);
    assert(dy * dy >= 0) by (nonlinear_arith);
    dx * dx + dy * dy
}

/// The fish to cast at: among those that take the equipped bait, the one
/// whose centre is closest to the landing spot's, the earlier one where two
/// are as close; `None` where no fish takes the bait.
pub fn nearest_fish(fishes: &Vec<OneFish>, bait: Option<BaitType>, landing: Rect) -> (r: Option<usize>)
    ensures
        match r {
            Some(k) => is_nearest_fish(fishes@, bait, landing, k as int),
            None => forall|j: int| 0 <= j < fishes.len() ==> !takes_bait(#[trigger] fishes@[j], bait),
        },
{
    let mut best: Option<usize> = None;
    let mut best_d: i128 = 0;
    let mut i: usize = 0;
    while i < fishes.len()
        invariant
            0 <= i <= fishes.len(),
            match best {
                None => forall|j: int| 0 <= j < i ==> !takes_bait(#[trigger] fishes@[j], bait),
                Some(k) => {
                    &&& k < i
                    &&& takes_bait(fishes@[k as int], bait)
                    &&& best_d == center_dist(fishes@[k as int].rect, landing)
                    &&& forall|j: int| 0 <= j < i && takes_bait(#[trigger] fishes@[j], bait)
                        ==> best_d <= center_dist(fishes@[j].rect, landing)
                    &&& forall|j: int| 0 <= j < k && takes_bait(#[trigger] fishes@[j], bait)
                        ==> center_dist(fishes@[j].rect, landing) > best_d
                },
            },
        decreases fishes.len() - i,
    {
        let f = fishes[i];
        let fits = match bait {
            None => true,
            Some(b) => f.fish_type.bait == b,
        };
        if fits {
            let d = center_dist_exec(f.rect, landing);
            match best {
                None => {
                    best = Some(i);
                    best_d = d;
                },
                Some(_) => {
                    if d < best_d {
                        best = Some(i);
                        best_d = d;
                    }
                },
            }
        }
        i = i + 1;
    }
    best
}

/// How many frames in a row may lose the landing spot, once found, before the cast is retried.
pub const LOST_LANDING_LIMIT: u32 = 25;

/// How many frames in a row may show no fish for the bait before the cast is given up.
pub const NO_BAIT_FISH_LIMIT: u32 = 10;

/// The counters of one cast.
pub struct CastTracker {
    /// Whether a landing spot was seen during this cast.
    pub found_landing: bool,
    pub lost_landing: u32,
    pub no_bait_fish: u32,
}

impl CastTracker {
    /// Fresh counters.
    pub fn new() -> (t: Self)
        ensures
            !t.found_landing,
            t.lost_landing == 0,
            t.no_bait_fish == 0,
    {
        CastTracker { found_landing: false, lost_landing: 0, no_bait_fish: 0 }
    }

    /// Count a frame that lost the landing spot; past the limit the cast is retried.
    pub fn on_lost_landing(&mut self) -> (retry: bool)
        requires
            old(self).lost_landing <= LOST_LANDING_LIMIT,
        ensures
            final(self).lost_landing == old(self).lost_landing + 1,
            final(self).no_bait_fish == old(self).no_bait_fish,
            final(self).found_landing == old(self).found_landing,
            retry == (final(self).lost_landing > LOST_LANDING_LIMIT),
    {
        self.lost_landing = self.lost_landing + 1;
        self.lost_landing > LOST_LANDING_LIMIT
    }

    /// Count a frame with no fish for the bait; past the limit the cast is given up.
    pub fn on_no_bait_fish(&mut self) -> (give_up: bool)
        requires
            old(self).no_bait_fish <= NO_BAIT_FISH_LIMIT,
        ensures
            final(self).no_bait_fish == old(self).no_bait_fish + 1,
            final(self).lost_landing == old(self).lost_landing,
            final(self).found_landing == old(self).found_landing,
            give_up == (final(self).no_bait_fish > NO_BAIT_FISH_LIMIT),
    {
        self.no_bait_fish = self.no_bait_fish + 1;
        self.no_bait_fish > NO_BAIT_FISH_LIMIT
    }
}

/// How long after the rod is raised a landing spot is searched for by
/// sweeping the view, in milliseconds.
pub const LANDING_SEARCH_MS: u64 = 5000;

/// How long after the rod is raised the detector's landing spots are used,
/// in milliseconds.
pub const LANDING_TRUST_MS: u64 = 6000;

/// Whether the landing spots the detector reports are used, `elapsed_ms`
/// after the rod was raised.
pub fn trusts_landing(elapsed_ms: u64) -> (r: bool)
    ensures
        r == (elapsed_ms <= LANDING_TRUST_MS),
{
    elapsed_ms <= LANDING_TRUST_MS
}

/// What the caller saw on one frame of a cast, with the rod held.
#[derive(Debug, Clone, Copy, PartialEq, Eq, Structural)]
pub struct CastFrame {
    /// The user asked to stop.
    pub cancelled: bool,
    /// Milliseconds since the rod was raised.
    pub elapsed_ms: u64,
    /// A landing spot is on the screen.
    pub landing: bool,
    /// A fish that takes the selected bait is on the screen.
    pub fish_for_bait: bool,
    /// How the aim relates to the nearest such fish.
    pub rod: RodState,
}

/// What the caller does after a frame of a cast.
#[derive(Debug, Clone, Copy, PartialEq, Eq, Structural)]
pub enum CastAction {
    /// Release the rod and stop: the task was cancelled.
    Cancel,
    /// Sweep the view up or down to find a landing spot, and look again.
    SweepView,
    /// No landing spot was ever found: release, click, and end the cast unsuccessfully.
    NoLanding,
    /// The landing spot was lost for a frame: nudge the aim at random and look again.
    Jitter,
    /// The landing spot stayed lost: release, click, and end the cast unsuccessfully.
    RetryCast,
    /// No fish for the bait yet: wait and look again.
    WaitForFish,
    /// No fish for the bait for too long: release, click, and go on to check the cast.
    GiveUpBait,
    /// The aim is right: release the rod, and go on to check the cast.
    Release,
    /// Move the aim away from the fish (too close) or towards it (too far), and look again.
    Nudge(RodState),
}

impl CastTracker {
    /// One frame of a cast: cancellation stops it. Without a landing spot,
    /// before one was ever seen, the view is swept for the first
    /// `LANDING_SEARCH_MS` and then the cast ends (counted on `board`);
    /// after one was seen, the aim is jittered until the spot stayed lost
    /// too long. With a landing spot, a frame without a fish for the bait is
    /// waited out until that lasted too long (the bait is noted on `board`);
    /// otherwise the rod state decides between releasing and nudging.
    pub fn cast_frame(&mut self, board: &mut Blackboard, f: CastFrame) -> (a: CastAction)
        requires
            old(self).lost_landing <= LOST_LANDING_LIMIT,
            old(self).no_bait_fish <= NO_BAIT_FISH_LIMIT,
            old(board).throw_rod_no_target_times < u32::MAX,
        ensures
            f.cancelled ==> a == CastAction::Cancel && *final(self) == *old(self) && *final(board) == *old(board),
            !f.cancelled && !f.landing && !old(self).found_landing ==> {
                &&& *final(self) == *old(self)
                &&& if f.elapsed_ms <= LANDING_SEARCH_MS {
                    a == CastAction::SweepView && *final(board) == *old(board)
                } else {
                    &&& a == CastAction::NoLanding
                    &&& final(board).throw_rod_no_target_times == old(board).throw_rod_no_target_times + 1
                    &&& final(board).abort == (old(board).abort || final(board).throw_rod_no_target_times
                        > NO_LANDING_LIMIT)
                    &&& final(board).selected_bait == old(board).selected_bait
                    &&& final(board).throw_rod_no_bait_fish_failures@ == old(board).throw_rod_no_bait_fish_failures@
                }
            },
            !f.cancelled && !f.landing && old(self).found_landing ==> {
                &&& final(self).lost_landing == old(self).lost_landing + 1
                &&& final(self).no_bait_fish == old(self).no_bait_fish
                &&& final(self).found_landing
                &&& *final(board) == *old(board)
                &&& a == if final(self).lost_landing > LOST_LANDING_LIMIT {
                    CastAction::RetryCast
                } else {
                    CastAction::Jitter
                }
            },
            !f.cancelled && f.landing && !f.fish_for_bait ==> {
                &&& final(self).found_landing
                &&& final(self).no_bait_fish == old(self).no_bait_fish + 1
                &&& final(self).lost_landing == old(self).lost_landing
                &&& if final(self).no_bait_fish > NO_BAIT_FISH_LIMIT {
                    &&& a == CastAction::GiveUpBait
                    &&& final(board).throw_rod_no_bait_fish_failures@ == match old(board).selected_bait {
                        Some(b) => old(board).throw_rod_no_bait_fish_failures@.push(b),
                        None => old(board).throw_rod_no_bait_fish_failures@,
                    }
                    &&& final(board).selected_bait == old(board).selected_bait
                    &&& final(board).throw_rod_no_target_times == old(board).throw_rod_no_target_times
                    &&& final(board).abort == old(board).abort
                } else {
                    a == CastAction::WaitForFish && *final(board) == *old(board)
                }
            },
            !f.cancelled && f.landing && f.fish_for_bait ==> {
                &&& final(self).found_landing
                &&& final(self).lost_landing == old(self).lost_landing
                &&& final(self).no_bait_fish == old(self).no_bait_fish
                &&& *final(board) == *old(board)
                &&& a == if f.rod == RodState::JustRight {
                    CastAction::Release
                } else {
                    CastAction::Nudge(f.rod)
                }
            },
    {
        if f.cancelled {
            return CastAction::Cancel;
        }
        if !f.landing {
            if !self.found_landing {
                if f.elapsed_ms <= LANDING_SEARCH_MS {
                    return CastAction::SweepView;
                }
                board.record_no_landing();
                return CastAction::NoLanding;
            }
            if self.on_lost_landing() {
                return CastAction::RetryCast;
            }
            return CastAction::Jitter;
        }
        self.found_landing = true;
        if !f.fish_for_bait {
            if self.on_no_bait_fish() {
                let bait = board.selected_bait;
                board.record_no_bait_fish(bait);
                return CastAction::GiveUpBait;
            }
            return CastAction::WaitForFish;
        }
        match f.rod {
            RodState::JustRight => CastAction::Release,
            other => CastAction::Nudge(other),
        }
    }
}

/// How many casts may find no landing spot before the round is aborted.
pub const NO_LANDING_LIMIT: u32 = 2;

/// How many failed searches for a bait make it ignored.
pub const BAIT_FAILURE_LIMIT: usize = 2;

/// The state the fishing steps share within a round.
pub struct Blackboard {
    /// The bait equipped, where known.
    pub selected_bait: Option<BaitType>,
    /// The pond last seen.
    pub fishpond: Option<Fishpond>,
    /// Casts that found no landing spot.
    pub throw_rod_no_target_times: u32,
    /// Baits with which a cast found no fish to take them.
    pub throw_rod_no_bait_fish_failures: Vec<BaitType>,
    /// Where the tension bar is tracked.
    pub fish_box_rect: Option<Rect>,
    /// Whether the view must be turned down before the next cast.
    pub pitch_reset: bool,
    /// Whether the round is to be ended.
    pub abort: bool,
    /// Baits searched for in vain in the bait menu.
    pub choose_bait_failures: Vec<BaitType>,
}

/// Whether a blackboard holds nothing, with the view-reset flag as given.
pub open spec fn is_fresh_board(b: Blackboard, pitch_reset: bool) -> bool {
    &&& b.selected_bait is None
    &&& b.fishpond is None
    &&& b.throw_rod_no_target_times == 0
    &&& b.throw_rod_no_bait_fish_failures@.len() == 0
    &&& b.fish_box_rect is None
    &&& b.pitch_reset == pitch_reset
    &&& !b.abort
    &&& b.choose_bait_failures@.len() == 0
}

impl Default for Blackboard {
    /// An empty blackboard.
    fn default() -> (b: Self)
        ensures
            is_fresh_board(b, false),
    {
        Blackboard {
            selected_bait: None,
            fishpond: None,
            throw_rod_no_target_times: 0,
            throw_rod_no_bait_fish_failures: Vec::new(),
            fish_box_rect: None,
            pitch_reset: false,
            abort: false,
            choose_bait_failures: Vec::new(),
        }
    }
}

impl Blackboard {
    /// Start a new round: forget everything, and turn the view down before the first cast.
    pub fn reset(&mut self)
        ensures
            is_fresh_board(*final(self), true),
    {
        *self = Blackboard::default();
        self.pitch_reset = true;
    }

    /// Count a cast that found no landing spot; past the limit the round is aborted.
    pub fn record_no_landing(&mut self)
        requires
            old(self).throw_rod_no_target_times < u32::MAX,
        ensures
            final(self).throw_rod_no_target_times == old(self).throw_rod_no_target_times + 1,
            final(self).abort == (old(self).abort || final(self).throw_rod_no_target_times
                > NO_LANDING_LIMIT),
            final(self).selected_bait == old(self).selected_bait,
            final(self).choose_bait_failures@ == old(self).choose_bait_failures@,
            final(self).throw_rod_no_bait_fish_failures@ == old(self).throw_rod_no_bait_fish_failures@,
            final(self).pitch_reset == old(self).pitch_reset,
    {
        self.throw_rod_no_target_times = self.throw_rod_no_target_times + 1;
        if self.throw_rod_no_target_times > NO_LANDING_LIMIT {
            self.abort = true;
        }
    }

    /// Note that a cast with `bait` found no fish to take it.
    pub fn record_no_bait_fish(&mut self, bait: Option<BaitType>)
        ensures
            final(self).throw_rod_no_bait_fish_failures@ == match bait {
                Some(b) => old(self).throw_rod_no_bait_fish_failures@.push(b),
                None => old(self).throw_rod_no_bait_fish_failures@,
            },
            final(self).selected_bait == old(self).selected_bait,
            final(self).choose_bait_failures@ == old(self).choose_bait_failures@,
            final(self).throw_rod_no_target_times == old(self).throw_rod_no_target_times,
            final(self).abort == old(self).abort,
    {
        if let Some(b) = bait {
            self.throw_rod_no_bait_fish_failures.push(b);
        }
    }

    /// Note that `target` was not found in the bait menu: it counts as a
    /// failure, the equipped bait becomes unknown, and the answer says
    /// whether `target` is now ignored.
    pub fn record_bait_not_found(&mut self, target: BaitType) -> (ignored: bool)
        ensures
            final(self).choose_bait_failures@ == old(self).choose_bait_failures@.push(target),
            final(self).selected_bait is None,
            ignored == (crate::task::fishing::occurrences(final(self).choose_bait_failures@, target)
                >= BAIT_FAILURE_LIMIT),
            final(self).throw_rod_no_target_times == old(self).throw_rod_no_target_times,
            final(self).abort == old(self).abort,
    {
        self.choose_bait_failures.push(target);
        let mut n: usize = 0;
        let mut i: usize = 0;
        while i < self.choose_bait_failures.len()
            invariant
                0 <= i <= self.choose_bait_failures.len(),
                n <= i,
                n == crate::task::fishing::occurrences(self.choose_bait_failures@.take(i as int), target),
            decreases self.choose_bait_failures.len() - i,
        {
            assert(self.choose_bait_failures@.take(i + 1).drop_last() =~= self.choose_bait_failures@.take(
                i as int,
            ));
            if self.choose_bait_failures[i] == target {
                n = n + 1;
            }
            i = i + 1;
        }
        assert(self.choose_bait_failures@.take(i as int) =~= self.choose_bait_failures@);
        self.selected_bait = None;
        n >= BAIT_FAILURE_LIMIT
    }
}

/// The steps of one round of fishing, in the order the round takes them.
#[derive(Debug, Clone, Copy, PartialEq, Eq, Structural)]
pub enum RoundStep {
    /// Forget the last round, take the configured bait as equipped and turn the view down.
    Prepare,
    /// Turn until a pond is in front.
    SeekPond,
    /// Interact and confirm until the fishing mode is on.
    EnterMode,
    /// Turn the view down where a reset is due.
    AdjustView,
    /// Look for the pond from inside the fishing mode.
    FindFish,
    /// Switch bait where another fits better.
    ChooseBait,
    /// Hold the rod and aim until the cast.
    ThrowRod,
    /// Check that the cast went out.
    CheckThrow,
    /// Wait for a bite and lift the rod.
    WaitForBite,
    /// Find the tension bar.
    FindFishBox,
    /// Reel the fish in.
    Pull,
    /// Leave the fishing mode.
    Quit,
    /// The round is over.
    Done,
}

/// The step a round goes on with, and whether the round is marked aborted.
#[derive(Debug, Clone, Copy, PartialEq, Eq, Structural)]
pub struct RoundMove {
    pub next: RoundStep,
    pub set_abort: bool,
}

/// Where a round goes after `step` succeeded (`ok`) or not, with the round's
/// abort mark `abort` as it stands after the step. Before every fishing
/// attempt the caller checks cancellation (which ends the round after
/// leaving the mode) and the round's deadline (which leaves the mode).
pub open spec fn next_round_step_spec(step: RoundStep, ok: bool, abort: bool) -> RoundMove {
    match step {
        RoundStep::Prepare => RoundMove { next: RoundStep::SeekPond, set_abort: false },
        RoundStep::SeekPond => if ok {
            RoundMove { next: RoundStep::EnterMode, set_abort: false }
        } else {
            RoundMove { next: RoundStep::Quit, set_abort: true }
        },
        RoundStep::EnterMode => if ok {
            RoundMove { next: RoundStep::AdjustView, set_abort: false }
        } else {
            RoundMove { next: RoundStep::Done, set_abort: false }
        },
        RoundStep::AdjustView => RoundMove { next: RoundStep::FindFish, set_abort: false },
        RoundStep::FindFish => if ok {
            RoundMove { next: RoundStep::ChooseBait, set_abort: false }
        } else {
            RoundMove { next: RoundStep::Quit, set_abort: true }
        },
        RoundStep::ChooseBait => RoundMove { next: RoundStep::ThrowRod, set_abort: false },
        RoundStep::ThrowRod => if abort {
            RoundMove { next: RoundStep::Quit, set_abort: false }
        } else if ok {
            RoundMove { next: RoundStep::CheckThrow, set_abort: false }
        } else {
            RoundMove { next: RoundStep::AdjustView, set_abort: false }
        },
        RoundStep::CheckThrow => if ok {
            RoundMove { next: RoundStep::WaitForBite, set_abort: false }
        } else {
            RoundMove { next: RoundStep::AdjustView, set_abort: false }
        },
        RoundStep::WaitForBite => RoundMove { next: RoundStep::FindFishBox, set_abort: false },
        RoundStep::FindFishBox => if ok {
            RoundMove { next: RoundStep::Pull, set_abort: false }
        } else {
            RoundMove { next: RoundStep::AdjustView, set_abort: false }
        },
        RoundStep::Pull => RoundMove { next: RoundStep::AdjustView, set_abort: false },
        RoundStep::Quit => RoundMove { next: RoundStep::Done, set_abort: false },
        RoundStep::Done => RoundMove { next: RoundStep::Done, set_abort: false },
    }
}

/// What is done in place of a round's step once cancellation and the
/// round's deadline are taken into account.
#[derive(Debug, Clone, Copy, PartialEq, Eq, Structural)]
pub enum RoundGate {
    /// Leave the fishing mode and end the task as cancelled.
    Cancel,
    /// Take this step.
    Run(RoundStep),
}

/// Before each fishing attempt (the view adjustment that starts it), a
/// cancelled task leaves the mode and stops, and a round past its deadline
/// leaves the mode; every other step is taken as it is.
pub fn gate_round_step(step: RoundStep, cancelled: bool, past_deadline: bool) -> (g: RoundGate)
    ensures
        g == if step == RoundStep::AdjustView && cancelled {
            RoundGate::Cancel
        } else if step == RoundStep::AdjustView && past_deadline {
            RoundGate::Run(RoundStep::Quit)
        } else {
            RoundGate::Run(step)
        },
{
    if step == RoundStep::AdjustView {
        if cancelled {
            return RoundGate::Cancel;
        }
        if past_deadline {
            return RoundGate::Run(RoundStep::Quit);
        }
    }
    RoundGate::Run(step)
}

/// Where a round goes after `step` (see [`next_round_step_spec`]).
pub fn next_round_step(step: RoundStep, ok: bool, abort: bool) -> (m: RoundMove)
    ensures
        m == next_round_step_spec(step, ok, abort),
{
    match step {
        RoundStep::Prepare => RoundMove { next: RoundStep::SeekPond, set_abort: false },
        RoundStep::SeekPond => if ok {
            RoundMove { next: RoundStep::EnterMode, set_abort: false }
        } else {
            RoundMove { next: RoundStep::Quit, set_abort: true }
        },
        RoundStep::EnterMode => if ok {
            RoundMove { next: RoundStep::AdjustView, set_abort: false }
        } else {
            RoundMove { next: RoundStep::Done, set_abort: false }
        },
        RoundStep::AdjustView => RoundMove { next: RoundStep::FindFish, set_abort: false },
        RoundStep::FindFish => if ok {
            RoundMove { next: RoundStep::ChooseBait, set_abort: false }
        } else {
            RoundMove { next: RoundStep::Quit, set_abort: true }
        },
        RoundStep::ChooseBait => RoundMove { next: RoundStep::ThrowRod, set_abort: false },
        RoundStep::ThrowRod => if abort {
            RoundMove { next: RoundStep::Quit, set_abort: false }
        } else if ok {
            RoundMove { next: RoundStep::CheckThrow, set_abort: false }
        } else {
            RoundMove { next: RoundStep::AdjustView, set_abort: false }
        },
        RoundStep::CheckThrow => if ok {
            RoundMove { next: RoundStep::WaitForBite, set_abort: false }
        } else {
            RoundMove { next: RoundStep::AdjustView, set_abort: false }
        },
        RoundStep::WaitForBite => RoundMove { next: RoundStep::FindFishBox, set_abort: false },
        RoundStep::FindFishBox => if ok {
            RoundMove { next: RoundStep::Pull, set_abort: false }
        } else {
            RoundMove { next: RoundStep::AdjustView, set_abort: false }
        },
        RoundStep::Pull => RoundMove { next: RoundStep::AdjustView, set_abort: false },
        RoundStep::Quit => RoundMove { next: RoundStep::Done, set_abort: false },
        RoundStep::Done => RoundMove { next: RoundStep::Done, set_abort: false },
    }
}

/// Whether a step belongs to the fishing loop, inside the fishing mode.
pub open spec fn in_fishing_loop(step: RoundStep) -> bool {
    match step {
        RoundStep::AdjustView | RoundStep::FindFish | RoundStep::ChooseBait | RoundStep::ThrowRod
        | RoundStep::CheckThrow | RoundStep::WaitForBite | RoundStep::FindFishBox | RoundStep::Pull => true,
        _ => false,
    }
}

/// Once inside the fishing mode a round never ends without leaving it: every
/// step of the fishing loop goes on within the loop or to `Quit`, and a
/// fish is only reeled in after its tension bar was found.
pub proof fn lemma_loop_leaves_through_quit(step: RoundStep, ok: bool, abort: bool)
    requires
        in_fishing_loop(step),
    ensures
        in_fishing_loop(next_round_step_spec(step, ok, abort).next) || next_round_step_spec(
            step,
            ok,
            abort,
        ).next == RoundStep::Quit,
        next_round_step_spec(step, ok, abort).next == RoundStep::Pull ==> step == RoundStep::FindFishBox
            && ok,
{
}

/// Whether the bars of `s` come in order of key `k`.
pub open spec fn bars_sorted(s: Seq<Rect>, k: BarKey) -> bool {
    forall|i: int, j: int| 0 <= i <= j < s.len() ==> bar_key(k, s[i]) <= bar_key(k, s[j])
}

/// In bars sorted by `k`, exactly the first `count_key_le` bars have a key no greater than `v`.
proof fn lemma_count_key_le_prefix(s: Seq<Rect>, k: BarKey, v: int)
    requires
        bars_sorted(s, k),
    ensures
        forall|i: int| 0 <= i < count_key_le(s, k, v) ==> bar_key(k, #[trigger] s[i]) <= v,
        forall|i: int| count_key_le(s, k, v) <= i < s.len() ==> bar_key(k, #[trigger] s[i]) > v,
    decreases s.len(),
{
    if s.len() > 0 {
        lemma_count_key_le_prefix(s.drop_last(), k, v);
        lemma_count_key_le_bound(s.drop_last(), k, v);
        assert(forall|i: int| 0 <= i < s.drop_last().len() ==> s.drop_last()[i] == s[i]);
        if bar_key(k, s.last()) <= v {
            assert forall|i: int| 0 <= i < s.len() - 1 implies bar_key(k, #[trigger] s[i]) <= v by {
                assert(bar_key(k, s[i]) <= bar_key(k, s[s.len() - 1]));
            }
        }
    }
}

/// Sorting bars by a key puts them in order of that key.
pub proof fn lemma_sort_bars_sorted(s: Seq<Rect>, k: BarKey)
    ensures
        bars_sorted(sort_bars(s, k), k),
    decreases s.len(),
{
    if s.len() > 0 {
        let rest = sort_bars(s.drop_last(), k);
        lemma_sort_bars_sorted(s.drop_last(), k);
        let v = bar_key(k, s.last());
        let p = count_key_le(rest, k, v) as int;
        lemma_count_key_le_prefix(rest, k, v);
        lemma_count_key_le_bound(rest, k, v);
        let r = rest.insert(p, s.last());
        assert forall|i: int, j: int| 0 <= i <= j < r.len() implies bar_key(k, r[i]) <= bar_key(k, r[j]) by {
            if i < p && j < p {
            } else if i < p && j == p {
                assert(bar_key(k, rest[i]) <= v);
            } else if i < p {
                assert(r[j] == rest[j - 1]);
            } else if i == p && j == p {
            } else if i == p {
                assert(r[j] == rest[j - 1]);
                assert(bar_key(k, rest[j - 1]) > v);
            } else {
                assert(r[i] == rest[i - 1]);
                assert(r[j] == rest[j - 1]);
            }
        }
    }
}

/// Counting over a sequence with one more element inserted anywhere.
proof fn lemma_count_key_le_insert(a: Seq<Rect>, p: int, x: Rect, k: BarKey, v: int)
    requires
        0 <= p <= a.len(),
    ensures
        count_key_le(a.insert(p, x), k, v) == count_key_le(a, k, v) + if bar_key(k, x) <= v {
            1nat
        } else {
            0nat
        },
    decreases a.len(),
{
    if p == a.len() {
        assert(a.insert(p, x).drop_last() =~= a);
    } else {
        assert(a.insert(p, x).drop_last() =~= a.drop_last().insert(p, x));
        assert(a.insert(p, x).last() == a.last());
        lemma_count_key_le_insert(a.drop_last(), p, x, k, v);
    }
}

/// Sorting keeps how many bars have a key no greater than `v`.
proof fn lemma_count_key_le_sorted(s: Seq<Rect>, k: BarKey, v: int)
    ensures
        count_key_le(sort_bars(s, k), k, v) == count_key_le(s, k, v),
    decreases s.len(),
{
    if s.len() > 0 {
        let rest = sort_bars(s.drop_last(), k);
        lemma_count_key_le_sorted(s.drop_last(), k, v);
        lemma_count_key_le_bound(rest, k, bar_key(k, s.last()));
        lemma_sort_bars_len(s.drop_last(), k);
        lemma_count_key_le_insert(rest, count_key_le(rest, k, bar_key(k, s.last())) as int, s.last(), k, v);
    }
}

/// Counting over a sequence split at `i`.
proof fn lemma_count_key_le_split(s: Seq<Rect>, i: int, k: BarKey, v: int)
    requires
        0 <= i <= s.len(),
    ensures
        count_key_le(s, k, v) == count_key_le(s.take(i), k, v) + count_key_le(s.skip(i), k, v),
    decreases s.len(),
{
    if i == s.len() {
        assert(s.take(i) =~= s);
        assert(s.skip(i) =~= Seq::<Rect>::empty());
    } else {
        lemma_count_key_le_split(s.drop_last(), i, k, v);
        assert(s.drop_last().take(i) =~= s.take(i));
        assert(s.skip(i).drop_last() =~= s.drop_last().skip(i));
        assert(s.skip(i).last() == s.last());
    }
}

/// A larger bound counts at least as many bars.
proof fn lemma_count_key_le_mono(s: Seq<Rect>, k: BarKey, v: int, w: int)
    requires
        v <= w,
    ensures
        count_key_le(s, k, v) <= count_key_le(s, k, w),
    decreases s.len(),
{
    if s.len() > 0 {
        lemma_count_key_le_mono(s.drop_last(), k, v, w);
    }
}

/// Two insertions into a sequence, the later-placed one first.
proof fn lemma_insert_twice(a: Seq<Rect>, lo: int, x: Rect, hi: int, y: Rect)
    requires
        0 <= lo <= hi <= a.len(),
    ensures
        a.insert(hi, y).insert(lo, x) == a.insert(lo, x).insert(hi + 1, y),
{
    let l = a.insert(hi, y).insert(lo, x);
    let r = a.insert(lo, x).insert(hi + 1, y);
    assert(l.len() == r.len());
    assert forall|j: int| 0 <= j < l.len() implies l[j] == r[j] by {
        if j < lo {
        } else if j == lo {
        } else if j <= hi {
            assert(l[j] == a.insert(hi, y)[j - 1]);
            assert(r[j] == a.insert(lo, x)[j]);
        } else if j == hi + 1 {
        } else {
            assert(l[j] == a.insert(hi, y)[j - 1]);
            assert(r[j] == a.insert(lo, x)[j - 1]);
        }
    }
    assert(l =~= r);
}

/// Where a bar `x` inserted at position `i` of `s` lands once sorted: after
/// the bars before it with a key no greater, and the bars after it with a
/// smaller key.
pub open spec fn sorted_position(s: Seq<Rect>, i: int, x: Rect, k: BarKey) -> int {
    (count_key_le(s.take(i), k, bar_key(k, x)) + count_key_le(s.skip(i), k, bar_key(k, x) - 1)) as int
}

/// Sorting is stable: sorting `s` with `x` inserted at `i` gives the sorted
/// `s` with `x` inserted at its sorted position.
proof fn lemma_sort_bars_insert(s: Seq<Rect>, i: int, x: Rect, k: BarKey)
    requires
        0 <= i <= s.len(),
    ensures
        0 <= sorted_position(s, i, x, k) <= s.len(),
        sort_bars(s.insert(i, x), k) == sort_bars(s, k).insert(sorted_position(s, i, x, k), x),
    decreases s.len(),
{
    let kx = bar_key(k, x);
    lemma_count_key_le_split(s, i, k, kx);
    lemma_count_key_le_split(s, i, k, kx - 1);
    lemma_count_key_le_bound(s.take(i), k, kx);
    lemma_count_key_le_bound(s.skip(i), k, kx - 1);
    lemma_sort_bars_len(s, k);
    if i == s.len() {
        assert(s.insert(i, x).drop_last() =~= s);
        assert(s.insert(i, x).last() == x);
        assert(s.take(i) =~= s);
        assert(s.skip(i) =~= Seq::<Rect>::empty());
        lemma_count_key_le_sorted(s, k, kx);
    } else {
        let s1 = s.drop_last();
        let last = s.last();
        let kl = bar_key(k, last);
        let a = sort_bars(s1, k);
        assert(s.insert(i, x).drop_last() =~= s1.insert(i, x));
        assert(s.insert(i, x).last() == last);
        lemma_sort_bars_insert(s1, i, x, k);
        let p1 = sorted_position(s1, i, x, k);
        lemma_sort_bars_len(s1, k);
        lemma_count_key_le_insert(a, p1, x, k, kl);
        lemma_count_key_le_sorted(s1, k, kl);
        let c0 = count_key_le(a, k, kl) as int;
        lemma_count_key_le_bound(a, k, kl);
        assert(s.take(i) =~= s1.take(i));
        assert(s.skip(i) =~= s1.skip(i).push(last));
        assert(s.skip(i).drop_last() =~= s1.skip(i));
        lemma_count_key_le_split(s1, i, k, kx);
        lemma_count_key_le_split(s1, i, k, kx - 1);
        lemma_count_key_le_mono(s1.skip(i), k, kx - 1, kx);
        if kx <= kl {
            lemma_count_key_le_mono(s1, k, kx, kl);
            lemma_insert_twice(a, p1, x, c0, last);
        } else {
            lemma_count_key_le_mono(s1, k, kl, kx - 1);
            lemma_count_key_le_mono(s1.take(i), k, kx - 1, kx);
            lemma_count_key_le_split(s1, i, k, kx - 1);
            lemma_insert_twice(a, c0, last, p1, x);
        }
    }
}

/// How many bars of `s` are taller than `h`.
pub open spec fn count_taller(s: Seq<Rect>, h: int) -> nat
    decreases s.len(),
{
    if s.len() == 0 {
        0
    } else {
        count_taller(s.drop_last(), h) + if s.last().height > h {
            1nat
        } else {
            0nat
        }
    }
}

proof fn lemma_count_taller_is_count_key(s: Seq<Rect>, h: int)
    ensures
        count_taller(s, h) == count_key_le(s, BarKey::HeightDescending, -h - 1),
    decreases s.len(),
{
    if s.len() > 0 {
        lemma_count_taller_is_count_key(s.drop_last(), h);
    }
}

/// The reel decision looks at the three tallest bars only: with more than
/// three bars, adding one more bar anywhere that is shorter than three of
/// them never changes whether the reel is held.
pub proof fn lemma_reel_ignores_short_bars(s: Seq<Rect>, i: int, extra: Rect, held: bool)
    requires
        s.len() > 3,
        0 <= i <= s.len(),
        count_taller(s, extra.height as int) >= 3,
    ensures
        reel_held_spec(s.insert(i, extra), held) == reel_held_spec(s, held),
{
    let k = BarKey::HeightDescending;
    lemma_sort_bars_insert(s, i, extra, k);
    lemma_sort_bars_len(s, k);
    let kx = bar_key(k, extra);
    lemma_count_taller_is_count_key(s, extra.height as int);
    lemma_count_key_le_split(s, i, k, kx - 1);
    lemma_count_key_le_mono(s.take(i), k, kx - 1, kx);
    let p = sorted_position(s, i, extra, k);
    assert(p >= 3);
    let a = sort_bars(s, k);
    assert(a.insert(p, extra).take(3) =~= a.take(3));
    assert(reel_bars(s.insert(i, extra)) == reel_bars(s));
}

/// What a detection label stands for.
#[derive(Debug, Clone, Copy, PartialEq, Eq)]
pub enum DetectionKind {
    /// Where the bait would land.
    LandingSpot,
    /// The body of a koi while casting, which is not counted as a fish: only its head is.
    Ignored,
    /// A fish of this kind.
    Fish(BigFishType),
    /// A label of no known kind.
    Unknown,
}

/// What a detection label stands for, with a fish kind's names as characters.
pub enum DetectionClass {
    LandingSpot,
    Ignored,
    Fish(FishKind),
    Unknown,
}

impl View for DetectionKind {
    type V = DetectionClass;

    open spec fn view(&self) -> DetectionClass {
        match self {
            DetectionKind::LandingSpot => DetectionClass::LandingSpot,
            DetectionKind::Ignored => DetectionClass::Ignored,
            DetectionKind::Fish(f) => DetectionClass::Fish(f@),
            DetectionKind::Unknown => DetectionClass::Unknown,
        }
    }
}

/// What the detection label `label` stands for, its underscores read as
/// spaces: `rod` and `err rod` are the landing spot, `koi` is left out while
/// casting, and a fish name is the first fish of that name in the table.
pub open spec fn detection_class_spec(label: Seq<char>, casting: bool) -> DetectionClass {
    let norm = underscores_to_spaces(label);
    if norm == "rod"@ || norm == "err rod"@ {
        DetectionClass::LandingSpot
    } else if casting && norm == "koi"@ {
        DetectionClass::Ignored
    } else {
        match first_fish_named(big_fish_table(), norm, underscores_to_spaces(norm)) {
            Some(k) => DetectionClass::Fish(k),
            None => DetectionClass::Unknown,
        }
    }
}

/// What a detection label stands for (see [`detection_class_spec`]).
pub fn classify_detection(label: &str, casting: bool) -> (k: DetectionKind)
    ensures
        k@ == detection_class_spec(label@, casting),
{
    broadcast use vstd::string::group_string_axioms;

    let chars = chars_of(label);
    let norm = replace_underscores(&chars);
    if chars_eq_str(&norm, "rod") || chars_eq_str(&norm, "err rod") {
        return DetectionKind::LandingSpot;
    }
    if casting && chars_eq_str(&norm, "koi") {
        return DetectionKind::Ignored;
    }
    let norm_s = crate::text::string_from_chars(&norm);
    match BigFishType::from_name(norm_s.as_str()) {
        Some(f) => DetectionKind::Fish(f),
        None => DetectionKind::Unknown,
    }
}

/// The box of the widest bar: of equally wide ones, the last.
pub open spec fn is_widest_box(boxes: Seq<Rect>, k: int) -> bool {
    &&& 0 <= k < boxes.len()
    &&& forall|j: int| 0 <= j < boxes.len() ==> #[trigger] boxes[j].width <= boxes[k].width
    &&& forall|j: int| k < j < boxes.len() ==> #[trigger] boxes[j].width < boxes[k].width
}

/// Whether a box lines up with the widest bar `w`: its centre within a fifth
/// of the bar's height of the bar's centre, its height within a third of the
/// bar's, and wider than a quarter of the bar's height (each tolerance at
/// least one pixel).
pub open spec fn lines_up_with(r: Rect, w: Rect) -> bool {
    let wcy = w.y + trunc_div(w.height as int, 2);
    let cy = r.y + trunc_div(r.height as int, 2);
    let h_tol = if trunc_div(w.height as int, 5) > 1 { trunc_div(w.height as int, 5) } else { 1 };
    let h_cap = if trunc_div(w.height as int, 3) > 1 { trunc_div(w.height as int, 3) } else { 1 };
    let w_min = if trunc_div(w.height as int, 4) > 1 { trunc_div(w.height as int, 4) } else { 1 };
    let dcy = wcy - cy;
    let dh = w.height - r.height;
    &&& (if dcy < 0 { -dcy } else { dcy }) < h_tol
    &&& (if dh < 0 { -dh } else { dh }) < h_cap
    &&& r.width > w_min
}

/// The boxes of `boxes` that line up with the widest box `w`, in order.
pub open spec fn boxes_lined_up(boxes: Seq<Rect>, w: Rect) -> Seq<Rect> {
    boxes.filter(|r: Rect| lines_up_with(r, w))
}

fn lines_up_exec(r: Rect, w: Rect) -> (b: bool)
    ensures
        b == lines_up_with(r, w),
{
    let wcy = w.y as i64 + div_trunc(w.height as i64, 2);
    let cy = r.y as i64 + div_trunc(r.height as i64, 2);
    let t5 = div_trunc(w.height as i64, 5);
    let t3 = div_trunc(w.height as i64, 3);
    let t4 = div_trunc(w.height as i64, 4);
    let h_tol = if t5 > 1 { t5 } else { 1 };
    let h_cap = if t3 > 1 { t3 } else { 1 };
    let w_min = if t4 > 1 { t4 } else { 1 };
    let dcy = wcy - cy;
    let dh = w.height as i64 - r.height as i64;
    let adcy = if dcy < 0 { -dcy } else { dcy };
    let adh = if dh < 0 { -dh } else { dh };
    adcy < h_tol && adh < h_cap && (r.width as i64) > w_min
}

/// The boxes of the tension bar's parts among the level boxes found: those
/// that line up with the widest one, in their order; none where none was found.
pub fn bar_boxes(boxes: &Vec<Rect>) -> (r: Vec<Rect>)
    ensures
        boxes@.len() == 0 ==> r@.len() == 0,
        boxes@.len() > 0 ==> exists|k: int| is_widest_box(boxes@, k) && r@ == boxes_lined_up(boxes@, boxes@[k]),
{
    if boxes.len() == 0 {
        return Vec::new();
    }
    let mut k: usize = 0;
    let mut i: usize = 1;
    while i < boxes.len()
        invariant
            1 <= i <= boxes.len(),
            k < i,
            forall|j: int| 0 <= j < i ==> #[trigger] boxes@[j].width <= boxes@[k as int].width,
            forall|j: int| k < j < i ==> #[trigger] boxes@[j].width < boxes@[k as int].width,
        decreases boxes.len() - i,
    {
        if boxes[i].width >= boxes[k].width {
            k = i;
        }
        i = i + 1;
    }
    let w = boxes[k];
    let mut out: Vec<Rect> = Vec::new();
    let mut j: usize = 0;
    while j < boxes.len()
        invariant
            0 <= j <= boxes.len(),
            w == boxes@[k as int],
            out@ == boxes@.take(j as int).filter(|r: Rect| lines_up_with(r, w)),
        decreases boxes.len() - j,
    {
        proof {
            assert(boxes@.take(j + 1) =~= boxes@.take(j as int).push(boxes@[j as int]));
            boxes@.take(j as int).lemma_filter_push(boxes@[j as int], |r: Rect| lines_up_with(r, w));
        }
        if lines_up_exec(boxes[j], w) {
            out.push(boxes[j]);
        }
        j = j + 1;
    }
    assert(boxes@.take(j as int) =~= boxes@);
    assert(is_widest_box(boxes@, k as int));
    out
}

/// Whether the tallest box around white text (the earlier one of equally
/// tall ones) is the bite prompt: shorter than the screen `src_h`, at least
/// three times as wide as high, less than a third as wide as the search
/// area `area_w`, and across the middle of that area.
pub open spec fn bite_words_spec(boxes: Seq<Rect>, src_h: int, area_w: int) -> Option<Rect> {
    if boxes.len() == 0 {
        None
    } else {
        let r = sort_bars(boxes, BarKey::HeightDescending)[0];
        let half = trunc_div(area_w, 2);
        if r.height < src_h && r.height > 0 && r.width >= 3 * r.height && area_w > 3 * r.width && half > r.x
            && half < r.x + r.width {
            Some(r)
        } else {
            None
        }
    }
}

/// The bite prompt among the boxes around white text, if it is there (see [`bite_words_spec`]).
pub fn bite_words_box(boxes: &Vec<Rect>, src_h: i32, area_w: i32) -> (r: Option<Rect>)
    ensures
        r == bite_words_spec(boxes@, src_h as int, area_w as int),
{
    if boxes.len() == 0 {
        return None;
    }
    let sorted = sorted_bars(boxes, BarKey::HeightDescending);
    proof {
        lemma_sort_bars_len(boxes@, BarKey::HeightDescending);
    }
    let r = sorted[0];
    let half = div_trunc(area_w as i64, 2);
    let h = r.height as i64;
    let w = r.width as i64;
    if h < src_h as i64 && h > 0 && w >= 3 * h && (area_w as i64) > 3 * w && half > r.x as i64 && half < r.x as i64
        + w {
        Some(r)
    } else {
        None
    }
}

} // verus!
