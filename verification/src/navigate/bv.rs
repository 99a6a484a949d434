//! Reading the game state from template matches: which screen is shown,
//! how the character moves, and the party in co-op play.
//!
//! The matching itself is done on screenshots outside this library; these
//! rules turn its yes/no answers and counts into states.

use vstd::prelude::*;

verus! {

/// How the current character moves.
#[derive(Debug, Clone, Copy, PartialEq, Eq, Structural)]
pub enum MotionStatus {
    Normal,
    Fly,
    Climb,
    Swim,
}

/// Which screen the game shows.
#[derive(Debug, Clone, Copy, PartialEq, Eq, Structural)]
pub enum GameUiCategory {
    Unknown,
    Main,
    Talk,
    BigMap,
}

/// The screen, from which templates matched: the dialogue button, the map
/// zoom button, the map settings button and the menu button, tried in that order.
pub open spec fn game_ui_of(talk: bool, map_scale: bool, map_settings: bool, menu: bool) -> GameUiCategory {
    if talk {
        GameUiCategory::Talk
    } else if map_scale || map_settings {
        GameUiCategory::BigMap
    } else if menu {
        GameUiCategory::Main
    } else {
        GameUiCategory::Unknown
    }
}

/// The screen, from which templates matched.
pub fn which_game_ui(talk: bool, map_scale: bool, map_settings: bool, menu: bool) -> (c: GameUiCategory)
    ensures
        c == game_ui_of(talk, map_scale, map_settings, menu),
{
    if talk {
        return GameUiCategory::Talk;
    }
    if map_scale || map_settings {
        return GameUiCategory::BigMap;
    }
    if menu {
        return GameUiCategory::Main;
    }
    GameUiCategory::Unknown
}

/// Whether the main screen is shown: the menu button matched and no revive
/// prompt is open.
pub fn is_in_main_ui(menu: bool, revive_prompt: bool) -> (r: bool)
    ensures
        r == (menu && !revive_prompt),
{
    if !menu {
        return false;
    }
    if revive_prompt {
        return false;
    }
    true
}

/// Whether the big map is shown: its zoom button or its settings button matched.
pub fn is_in_big_map_ui(map_scale: bool, map_settings: bool) -> (r: bool)
    ensures
        r == (map_scale || map_settings),
{
    if map_scale {
        return true;
    }
    map_settings
}

/// How the character moves, from the prompts shown: no jump prompt means
/// walking, a jump prompt with the drop prompt means climbing, otherwise flying.
pub fn get_motion_status(space_prompt: bool, drop_prompt: bool) -> (m: MotionStatus)
    ensures
        m == if !space_prompt {
            MotionStatus::Normal
        } else if drop_prompt {
            MotionStatus::Climb
        } else {
            MotionStatus::Fly
        },
{
    if !space_prompt {
        return MotionStatus::Normal;
    }
    if drop_prompt {
        MotionStatus::Climb
    } else {
        MotionStatus::Fly
    }
}

/// Whether a pixel, in blue-green-red order, is white: every channel at least 240.
pub fn pixel_is_white(b: u8, g: u8, r: u8) -> (w: bool)
    ensures
        w == (b >= 240 && g >= 240 && r >= 240),
{
    b >= 240 && g >= 240 && r >= 240
}

/// Whether the pixel shows the colour of a low health bar.
pub fn is_low_hp_pixel(b: u8, g: u8, r: u8) -> (low: bool)
    ensures
        low == (b == 90 && g == 90 && r == 255),
{
    b == 90 && g == 90 && r == 255
}

/// The five points of a matched box whose colours tell the domain icon from
/// a white prompt: the centre and the four quarter points.
pub open spec fn domain_sample_points_spec(x: i32, y: i32, w: i32, h: i32) -> Seq<(int, int)> {
    let cx = x + w / 2;
    let cy = y + h / 2;
    let qx = x + w / 4;
    let qy = y + h / 4;
    let qx3 = x + w * 3 / 4;
    let qy3 = y + h * 3 / 4;
    seq![(cx, cy), (qx, qy), (qx3, qy), (qx, qy3), (qx3, qy3)]
}

/// The sample points of a matched box with its top-left corner at `(x, y)`.
pub fn domain_sample_points(x: i32, y: i32, w: i32, h: i32) -> (pts: Vec<(i32, i32)>)
    requires
        0 <= w <= i32::MAX / 3,
        0 <= h <= i32::MAX / 3,
        x + w <= i32::MAX,
        y + h <= i32::MAX,
    ensures
        pts@.len() == 5,
        forall|i: int|
            0 <= i < 5 ==> (#[trigger] pts@[i]).0 as int == domain_sample_points_spec(x, y, w, h)[i].0
                && pts@[i].1 as int == domain_sample_points_spec(x, y, w, h)[i].1,
{
    let cx = x + w / 2;
    let cy = y + h / 2;
    let qx = x + w / 4;
    let qy = y + h / 4;
    let qx3 = x + w * 3 / 4;
    let qy3 = y + h * 3 / 4;
    let pts = vec![(cx, cy), (qx, qy), (qx3, qy), (qx, qy3), (qx3, qy3)];
    pts
}

/// Which party slots belong to the player in co-op play.
#[derive(Debug, Clone, Copy, PartialEq, Eq, Structural)]
pub struct MultiKey {
    pub is_host: bool,
    pub player_count: u8,
}

/// Co-op state and party size.
#[derive(Debug, Clone, Copy, PartialEq, Eq, Structural)]
pub struct MultiGameStatus {
    /// Whether a co-op session is running.
    pub is_in_multi_game: bool,
    /// Whether this player hosts it.
    pub is_host: bool,
    /// How many players take part.
    pub player_count: u8,
}

/// How many characters a player controls in a session.
pub open spec fn control_count(s: MultiGameStatus) -> u8 {
    if !s.is_in_multi_game {
        4
    } else if s.is_host {
        if s.player_count == 1 {
            4
        } else if s.player_count == 2 || s.player_count == 3 {
            2
        } else {
            1
        }
    } else {
        if s.player_count == 2 {
            2
        } else {
            1
        }
    }
}

/// The session state read from the party icons: `p_hits` guest icons were
/// found and the host icon was or was not.
pub open spec fn status_from_icons(p_hits: nat, one_p_hit: bool) -> MultiGameStatus {
    if p_hits > 0 {
        MultiGameStatus {
            is_in_multi_game: true,
            is_host: one_p_hit,
            player_count: if (p_hits % 256) + 1 < 4 {
                ((p_hits % 256) + 1) as u8
            } else {
                4
            },
        }
    } else if one_p_hit {
        MultiGameStatus { is_in_multi_game: true, is_host: true, player_count: 1 }
    } else {
        MultiGameStatus { is_in_multi_game: false, is_host: false, player_count: 1 }
    }
}

impl MultiGameStatus {
    /// Playing alone (also the state when nothing is recognised).
    pub fn single_player() -> (s: Self)
        ensures
            s == (MultiGameStatus { is_in_multi_game: false, is_host: false, player_count: 1 }),
    {
        MultiGameStatus { is_in_multi_game: false, is_host: false, player_count: 1 }
    }

    /// How many characters this player controls.
    pub fn max_control_avatar_count(&self) -> (n: u8)
        ensures
            n == control_count(*self),
    {
        if !self.is_in_multi_game {
            return 4;
        }
        if self.is_host {
            match self.player_count {
                1 => 4,
                2 | 3 => 2,
                4 => 1,
                _ => 1,
            }
        } else {
            match self.player_count {
                2 => 2,
                3 | 4 => 1,
                _ => 1,
            }
        }
    }

    /// The slot layout of a co-op session; `None` when playing alone.
    pub fn multi_key(&self) -> (k: Option<MultiKey>)
        ensures
            k == if self.is_in_multi_game {
                Some(MultiKey { is_host: self.is_host, player_count: self.player_count })
            } else {
                None
            },
    {
        if !self.is_in_multi_game {
            return None;
        }
        Some(MultiKey { is_host: self.is_host, player_count: self.player_count })
    }

    /// The session state from the number of guest icons found (at most three
    /// are searched for) and whether the host icon was found.
    pub fn from_icons(p_hits: usize, one_p_hit: bool) -> (s: Self)
        requires
            p_hits % 256 != 255,
        ensures
            s == status_from_icons(p_hits as nat, one_p_hit),
    {
        if p_hits > 0 {
            let low = (p_hits % 256) as u8;
            let n = low + 1;
            let player_count = if n < 4 {
                n
            } else {
                4
            };
            return MultiGameStatus { is_in_multi_game: true, is_host: one_p_hit, player_count };
        }
        if one_p_hit {
            return MultiGameStatus { is_in_multi_game: true, is_host: true, player_count: 1 };
        }
        MultiGameStatus::single_player()
    }
}

/// The skill whose cooldown is read off the screen.
#[derive(Debug, Clone, Copy, PartialEq, Eq, Structural)]
pub enum SkillSlot {
    /// The elemental skill.
    Elemental,
    /// The elemental burst.
    Burst,
}

/// Where a skill's cooldown digits appear on a `w` by `h` screen, scaled
/// from their place on a 1920 by 1080 one; `None` for an empty screen.
pub open spec fn skill_icon_roi_spec(slot: SkillSlot, w: int, h: int) -> Option<crate::geom::Rect> {
    if w <= 0 || h <= 0 {
        None
    } else {
        match slot {
            SkillSlot::Elemental => Some(crate::geom::Rect {
                x: (w * 1688 / 1920) as i32,
                y: (h * 988 / 1080) as i32,
                width: (w * 22 / 1920) as i32,
                height: (h * 12 / 1080) as i32,
            }),
            SkillSlot::Burst => Some(crate::geom::Rect {
                x: (w * 1809 / 1920) as i32,
                y: (h * 968 / 1080) as i32,
                width: (w * 30 / 1920) as i32,
                height: (h * 15 / 1080) as i32,
            }),
        }
    }
}

/// Where a skill's cooldown digits appear (see [`skill_icon_roi_spec`]).
pub fn skill_icon_roi(slot: SkillSlot, w: i32, h: i32) -> (r: Option<crate::geom::Rect>)
    ensures
        r == skill_icon_roi_spec(slot, w as int, h as int),
{
    if w <= 0 || h <= 0 {
        return None;
    }
    let ww = w as i64;
    let hh = h as i64;
    match slot {
        SkillSlot::Elemental => Some(crate::geom::Rect {
            x: (ww * 1688 / 1920) as i32,
            y: (hh * 988 / 1080) as i32,
            width: (ww * 22 / 1920) as i32,
            height: (hh * 12 / 1080) as i32,
        }),
        SkillSlot::Burst => Some(crate::geom::Rect {
            x: (ww * 1809 / 1920) as i32,
            y: (hh * 968 / 1080) as i32,
            width: (ww * 30 / 1920) as i32,
            height: (hh * 15 / 1080) as i32,
        }),
    }
}

/// The top of the band of a `h` pixels high screen in which the revive
/// button is read: its lowest quarter.
pub open spec fn revive_band_top(h: int) -> int {
    (h / 4) * 3
}

/// Where the revive button is clicked, given the lines read in the lowest
/// quarter of a screen `h` pixels high: the centre of the first line that
/// holds 复苏, moved down to screen coordinates; `None` where no line does.
pub fn revive_button_point(lines: &Vec<crate::task::choose_talk_option::OcrLine>, h: i32) -> (r: Option<(i32, i32)>)
    requires
        h >= 0,
        forall|i: int|
            0 <= i < lines@.len() ==> {
                let l = #[trigger] lines@[i];
                l.x <= i32::MAX && l.x + l.width / 2 <= i32::MAX && revive_band_top(h as int) + l.y
                    + l.height / 2 <= i32::MAX
            },
    ensures
        match r {
            Some(p) => exists|k: int|
                crate::task::choose_talk_option::is_first_option_with(lines@, "复苏"@, k) && p.0 == lines@[k].x
                    + lines@[k].width / 2 && p.1 == revive_band_top(h as int) + lines@[k].y + lines@[k].height / 2,
            None => forall|j: int|
                0 <= j < lines@.len() ==> !crate::navigate::tp::contains_text(#[trigger] lines@[j].text@, "复苏"@),
        },
{
    match crate::task::choose_talk_option::find_option(lines, "复苏") {
        None => None,
        Some(k) => {
            let l = &lines[k];
            proof {
                let ll = lines@[k as int];
                assert(ll.x <= i32::MAX && ll.x + ll.width / 2 <= i32::MAX && revive_band_top(h as int) + ll.y
                    + ll.height / 2 <= i32::MAX);
            }
            let top = h / 4 * 3;
            let cx = l.x as i32 + (l.width / 2) as i32;
            let cy = top + l.y as i32 + (l.height / 2) as i32;
            Some((cx, cy))
        },
    }
}

/// The part of a `w` by `h` screen searched for a template of `tw` by `th`
/// pixels whose search area is `roi`: the area cut to the screen, where
/// that is larger than the template both ways.
pub open spec fn template_search_region_spec(roi: crate::geom::Rect, w: i32, h: i32, tw: i32, th: i32) -> Option<crate::geom::Rect> {
    let r = crate::geom::intersect_spec(roi, crate::geom::Rect { x: 0, y: 0, width: w, height: h });
    if r.width <= tw || r.height <= th {
        None
    } else {
        Some(r)
    }
}

/// The part of the screen searched for a template (see [`template_search_region_spec`]).
pub fn template_search_region(roi: crate::geom::Rect, w: i32, h: i32, tw: i32, th: i32) -> (r: Option<crate::geom::Rect>)
    requires
        crate::geom::edges_fit(roi),
        w >= 0,
        h >= 0,
    ensures
        r == template_search_region_spec(roi, w, h, tw, th),
{
    let screen = crate::geom::Rect { x: 0, y: 0, width: w, height: h };
    let r = crate::geom::intersect(roi, screen);
    if r.width <= tw || r.height <= th {
        None
    } else {
        Some(r)
    }
}

/// The area blanked around a hit at `(x, y)` of the match scores before the
/// next best hit is looked for: the template's size, centred on the hit, cut
/// at the top and left edges.
pub open spec fn suppression_rect_spec(x: i32, y: i32, tw: i32, th: i32) -> crate::geom::Rect {
    let sx = x - tw / 2;
    let sy = y - th / 2;
    crate::geom::Rect {
        x: if sx > 0 { sx as i32 } else { 0 },
        y: if sy > 0 { sy as i32 } else { 0 },
        width: tw,
        height: th,
    }
}

/// The area blanked around a hit (see [`suppression_rect_spec`]).
pub fn suppression_rect(x: i32, y: i32, tw: i32, th: i32) -> (r: crate::geom::Rect)
    requires
        tw >= 0,
        th >= 0,
    ensures
        r == suppression_rect_spec(x, y, tw, th),
{
    let sx = x as i64 - (tw / 2) as i64;
    let sy = y as i64 - (th / 2) as i64;
    crate::geom::Rect {
        x: if sx > 0 { sx as i32 } else { 0 },
        y: if sy > 0 { sy as i32 } else { 0 },
        width: tw,
        height: th,
    }
}

} // verus!
