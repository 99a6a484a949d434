//! The decisions taken while moving towards a waypoint: which position to
//! trust when the minimap cannot be located, when to give up after too
//! many far or stuck frames, when to re-align the camera, and what each
//! movement mode presses on a frame.
//!
//! Distances and angles are measured by the caller; this module receives
//! what they decide (far or not, beyond the angle tolerance or not).

use vstd::prelude::*;

use crate::navigate::executor::MoveOutcome;
use crate::navigate::path::MoveMode;
use crate::navigate::route::{default_handling_mode_spec, unrecognized_kind, Misidentification};
use crate::text::str_eq;

verus! {

broadcast use vstd::string::group_string_axioms;

/// How many far frames the runner tolerates by default before giving up.
pub const DEFAULT_TOO_FAR_RETRY_LIMIT: u32 = 50;

/// How many stuck detections the runner tolerates by default before giving up.
pub const DEFAULT_STUCK_RETRY_LIMIT: u32 = 2;

/// How many steps closing in on a waypoint may take.
pub const CLOSE_IN_MAX_STEPS: u32 = 25;

/// The misidentification kind for a position too far from the route.
pub open spec fn path_too_far_kind() -> Seq<char> {
    "pathTooFar"@
}

/// Whether the waypoint handles the misidentification kind `kind`.
pub open spec fn handles_kind_spec(mis: Misidentification, kind: Seq<char>) -> bool {
    exists|i: int| 0 <= i < mis.kinds@.len() && mis.kinds@[i]@ == kind
}

/// Whether the waypoint lists `kind` among the misidentifications it handles.
pub fn handles_kind(mis: &Misidentification, kind: &str) -> (r: bool)
    ensures
        r == handles_kind_spec(*mis, kind@),
{
    let mut i: usize = 0;
    while i < mis.kinds.len()
        invariant
            0 <= i <= mis.kinds.len(),
            forall|j: int| 0 <= j < i ==> mis.kinds@[j]@ != kind@,
        decreases mis.kinds.len() - i,
    {
        if str_eq(mis.kinds[i].as_str(), kind) {
            return true;
        }
        i = i + 1;
    }
    false
}

/// While moving: an unlocated frame falls back on the last located
/// position when the waypoint handles unrecognised positions.
pub fn move_falls_back_when_unrecognized(mis: &Misidentification) -> (r: bool)
    ensures
        r == handles_kind_spec(*mis, unrecognized_kind()),
{
    handles_kind(mis, "unrecognized")
}

/// While closing in: an unlocated frame falls back on the last located
/// position only when the waypoint handles unrecognised positions by going
/// back to the previous detected point.
pub fn close_in_falls_back_when_unrecognized(mis: &Misidentification) -> (r: bool)
    ensures
        r == (handles_kind_spec(*mis, unrecognized_kind()) && mis.handling_mode@
            == default_handling_mode_spec()),
{
    handles_kind(mis, "unrecognized") && str_eq(mis.handling_mode.as_str(), "previousDetectedPoint")
}

/// Whether a far position may be replaced by the last located one when that
/// one is not far: the waypoint handles positions too far from the route, by
/// going back to the previous detected point.
pub fn too_far_uses_previous_point(mis: &Misidentification) -> (r: bool)
    ensures
        r == (handles_kind_spec(*mis, path_too_far_kind()) && mis.handling_mode@
            == default_handling_mode_spec()),
{
    handles_kind(mis, "pathTooFar") && str_eq(mis.handling_mode.as_str(), "previousDetectedPoint")
}

/// The position a frame is judged by: the located one, or, where the minimap
/// could not be located and falling back is allowed, the last located one.
/// `None` skips the frame.
pub fn frame_position<T: Copy>(located: Option<T>, fall_back: bool, last_located: Option<T>) -> (r: Option<T>)
    ensures
        r == match located {
            Some(p) => Some(p),
            None => if fall_back {
                last_located
            } else {
                None
            },
        },
{
    match located {
        Some(p) => Some(p),
        None => {
            if fall_back {
                last_located
            } else {
                None
            }
        },
    }
}

/// What a far frame leads to.
#[derive(Debug, Clone, Copy, PartialEq, Eq, Structural)]
pub struct TooFarStep {
    /// Reset the locator to the last position that was not far, and pause.
    pub reset_position: bool,
    /// Stop moving: too many far frames.
    pub give_up: bool,
}

/// A steered frame's effect on the steered-frame count `frames` and the run
/// `run` of frames beyond the angle tolerance: the new count, the new run,
/// and whether the camera is to be re-aligned. The count stops at the
/// largest `u32`; after the first twenty frames a frame beyond the tolerance
/// extends the run and any other ends it; a run longer than ten asks for a
/// re-alignment, which starts a new run.
pub open spec fn steered_outcome(frames: nat, run: nat, beyond: bool) -> (nat, nat, bool) {
    let f1: nat = if frames < u32::MAX { frames + 1 } else { frames };
    let r1: nat = if f1 <= 20 {
        run
    } else if beyond {
        if run < u32::MAX { run + 1 } else { run }
    } else {
        0
    };
    let realign = f1 > 20 && r1 > 10;
    (f1, if realign { 0 } else { r1 }, realign)
}

/// The counters of one movement towards a waypoint.
pub struct MoveTracker {
    too_far_retry: u32,
    stuck_count: u32,
    move_frame_num: u32,
    rotation_beyond: u32,
    too_far_limit: u32,
    stuck_limit: u32,
}

impl MoveTracker {
    /// The counters never run past one beyond their limits, so they never overflow.
    pub closed spec fn wf(self) -> bool {
        &&& self.too_far_limit < u32::MAX
        &&& self.stuck_limit < u32::MAX
        &&& self.too_far_retry <= self.too_far_limit + 1
        &&& self.stuck_count <= self.stuck_limit + 1
    }

    /// How many far frames were seen.
    pub closed spec fn too_far_count(self) -> nat {
        self.too_far_retry as nat
    }

    /// How many stuck detections were seen.
    pub closed spec fn stuck_detections(self) -> nat {
        self.stuck_count as nat
    }

    /// How many frames moved with the camera steered.
    pub closed spec fn steered_frames(self) -> nat {
        self.move_frame_num as nat
    }

    /// How many steered frames in a row ended beyond the angle tolerance.
    pub closed spec fn frames_beyond(self) -> nat {
        self.rotation_beyond as nat
    }

    /// The far frames tolerated.
    pub closed spec fn too_far_limit_spec(self) -> nat {
        self.too_far_limit as nat
    }

    /// The stuck detections tolerated.
    pub closed spec fn stuck_limit_spec(self) -> nat {
        self.stuck_limit as nat
    }

    /// Fresh counters with the given limits.
    pub fn new(too_far_limit: u32, stuck_limit: u32) -> (t: Self)
        requires
            too_far_limit < u32::MAX,
            stuck_limit < u32::MAX,
        ensures
            t.wf(),
            t.too_far_count() == 0,
            t.stuck_detections() == 0,
            t.steered_frames() == 0,
            t.frames_beyond() == 0,
            t.too_far_limit_spec() == too_far_limit,
            t.stuck_limit_spec() == stuck_limit,
    {
        MoveTracker {
            too_far_retry: 0,
            stuck_count: 0,
            move_frame_num: 0,
            rotation_beyond: 0,
            too_far_limit,
            stuck_limit,
        }
    }

    /// Fresh counters with the runner's default limits.
    pub fn with_default_limits() -> (t: Self)
        ensures
            t.wf(),
            t.too_far_count() == 0,
            t.stuck_detections() == 0,
            t.steered_frames() == 0,
            t.frames_beyond() == 0,
            t.too_far_limit_spec() == DEFAULT_TOO_FAR_RETRY_LIMIT,
            t.stuck_limit_spec() == DEFAULT_STUCK_RETRY_LIMIT,
    {
        MoveTracker::new(DEFAULT_TOO_FAR_RETRY_LIMIT, DEFAULT_STUCK_RETRY_LIMIT)
    }

    /// Whether the movement has given up on far frames or stuck detections.
    pub open spec fn gave_up(self) -> bool {
        self.too_far_count() > self.too_far_limit_spec() || self.stuck_detections() > self.stuck_limit_spec()
    }

    /// Count a far frame: every tenth one resets the position, and the one
    /// past the limit gives up.
    pub fn on_too_far(&mut self) -> (s: TooFarStep)
        requires
            old(self).wf(),
            !old(self).gave_up(),
        ensures
            final(self).wf(),
            final(self).too_far_count() == old(self).too_far_count() + 1,
            final(self).stuck_detections() == old(self).stuck_detections(),
            final(self).steered_frames() == old(self).steered_frames(),
            final(self).frames_beyond() == old(self).frames_beyond(),
            final(self).too_far_limit_spec() == old(self).too_far_limit_spec(),
            final(self).stuck_limit_spec() == old(self).stuck_limit_spec(),
            s.reset_position == (final(self).too_far_count() % 10 == 0),
            s.give_up == (final(self).too_far_count() > final(self).too_far_limit_spec()),
            s.give_up == final(self).gave_up(),
    {
        self.too_far_retry = self.too_far_retry + 1;
        TooFarStep {
            reset_position: self.too_far_retry % 10 == 0,
            give_up: self.too_far_retry > self.too_far_limit,
        }
    }

    /// Count a stuck detection; the one past the limit gives up, any other
    /// is followed by an escape attempt.
    pub fn on_stuck(&mut self) -> (give_up: bool)
        requires
            old(self).wf(),
            !old(self).gave_up(),
        ensures
            final(self).wf(),
            final(self).stuck_detections() == old(self).stuck_detections() + 1,
            final(self).too_far_count() == old(self).too_far_count(),
            final(self).steered_frames() == old(self).steered_frames(),
            final(self).frames_beyond() == old(self).frames_beyond(),
            final(self).too_far_limit_spec() == old(self).too_far_limit_spec(),
            final(self).stuck_limit_spec() == old(self).stuck_limit_spec(),
            give_up == (final(self).stuck_detections() > final(self).stuck_limit_spec()),
            give_up == final(self).gave_up(),
    {
        self.stuck_count = self.stuck_count + 1;
        self.stuck_count > self.stuck_limit
    }

    /// Count a steered frame. After the first twenty, a frame that ended
    /// beyond the angle tolerance extends the run of such frames and any
    /// other ends it; a run longer than ten asks for the camera to be
    /// re-aligned, which starts a new run.
    pub fn on_steered_frame(&mut self, beyond_tolerance: bool) -> (realign: bool)
        requires
            old(self).wf(),
        ensures
            final(self).wf(),
            final(self).too_far_count() == old(self).too_far_count(),
            final(self).stuck_detections() == old(self).stuck_detections(),
            final(self).too_far_limit_spec() == old(self).too_far_limit_spec(),
            final(self).stuck_limit_spec() == old(self).stuck_limit_spec(),
            (final(self).steered_frames(), final(self).frames_beyond(), realign) == steered_outcome(
                old(self).steered_frames(),
                old(self).frames_beyond(),
                beyond_tolerance,
            ),
    {
        self.move_frame_num = self.move_frame_num.saturating_add(1);
        if self.move_frame_num > 20 {
            if beyond_tolerance {
                self.rotation_beyond = self.rotation_beyond.saturating_add(1);
            } else {
                self.rotation_beyond = 0;
            }
            if self.rotation_beyond > 10 {
                self.rotation_beyond = 0;
                return true;
            }
        }
        false
    }
}

/// How far a position is from the waypoint: close enough to count as
/// arrived, near, or too far.
#[derive(Debug, Clone, Copy, PartialEq, Eq, Structural)]
pub enum DistanceBand {
    Arrived,
    Near,
    Far,
}

/// What the caller measured on one frame of a movement.
#[derive(Debug, Clone, Copy, PartialEq, Eq, Structural)]
pub struct MoveFrame {
    /// The movement has run past its time limit.
    pub timed_out: bool,
    /// A minimap could be captured.
    pub captured: bool,
    /// The band of the position located on this frame, if any.
    pub located: Option<DistanceBand>,
    /// The band of the last position located before this frame, if any.
    pub last_located: Option<DistanceBand>,
    /// A position sample was due and taken, and the samples of the stuck
    /// window moved less than the stuck distance.
    pub stalled: bool,
    /// The camera is off the direction to the waypoint by more than the tolerance.
    pub beyond_tolerance: bool,
}

/// What the caller does after a frame of movement.
#[derive(Debug, Clone, Copy, PartialEq, Eq, Structural)]
pub enum FrameAction {
    /// Stop moving, with this outcome.
    Finish(MoveOutcome),
    /// Nothing to judge by: wait a frame and look again.
    Skip,
    /// The position is far: pause briefly, first resetting the locator to
    /// the last position that was not far where `reset_position` says so.
    FarWait { reset_position: bool },
    /// The character is stuck: turn and move aside, then press forward again.
    Escape,
    /// Steer towards the waypoint and take the movement mode's step;
    /// re-align the camera first where `realign` says so.
    Steer { realign: bool },
}

/// The band a frame is judged by: that of the frame's position (the located
/// one, or the last located one where falling back is allowed), replaced by
/// the band of the last located position (this frame's included) when the
/// frame's is far, that one is not, and the waypoint asks for it.
pub open spec fn judged_band(f: MoveFrame, fall_back: bool, far_uses_previous: bool) -> Option<DistanceBand> {
    let pos = match f.located {
        Some(b) => Some(b),
        None => if fall_back { f.last_located } else { None },
    };
    let prev = match f.located {
        Some(b) => Some(b),
        None => f.last_located,
    };
    match pos {
        Some(DistanceBand::Far) => if far_uses_previous && prev is Some && prev->0 != DistanceBand::Far {
            prev
        } else {
            pos
        },
        _ => pos,
    }
}

/// Whether two trackers have the same counters and limits.
pub open spec fn same_counts(a: MoveTracker, b: MoveTracker) -> bool {
    &&& a.too_far_count() == b.too_far_count()
    &&& a.stuck_detections() == b.stuck_detections()
    &&& a.steered_frames() == b.steered_frames()
    &&& a.frames_beyond() == b.frames_beyond()
    &&& a.too_far_limit_spec() == b.too_far_limit_spec()
    &&& a.stuck_limit_spec() == b.stuck_limit_spec()
}

impl MoveTracker {
    /// One frame of a movement towards a waypoint with misidentification
    /// handling `mis`, in mode `mode`: a timeout ends it; a frame without a
    /// minimap or a position to judge by is skipped; an arrived position
    /// ends it; a far one is counted (every tenth resets the position, the
    /// one past the limit ends the movement); otherwise a stall, outside
    /// climbing, is counted (the one past the limit ends the movement, any
    /// other escapes); otherwise the frame is steered. Every action but
    /// `Finish`, `Skip` and `FarWait` follows a position that was not far,
    /// which the caller keeps as the last such position.
    pub fn move_frame(&mut self, mis: &Misidentification, mode: MoveMode, f: MoveFrame) -> (a: FrameAction)
        requires
            old(self).wf(),
            !old(self).gave_up(),
        ensures
            final(self).wf(),
            ({
                let band = judged_band(
                    f,
                    handles_kind_spec(*mis, unrecognized_kind()),
                    handles_kind_spec(*mis, path_too_far_kind()) && mis.handling_mode@
                        == default_handling_mode_spec(),
                );
                if f.timed_out {
                    a == FrameAction::Finish(MoveOutcome::Timeout) && same_counts(*final(self), *old(self))
                } else if !f.captured || band is None {
                    a == FrameAction::Skip && same_counts(*final(self), *old(self))
                } else if band == Some(DistanceBand::Arrived) {
                    a == FrameAction::Finish(MoveOutcome::Arrived) && same_counts(*final(self), *old(self))
                } else if band == Some(DistanceBand::Far) {
                    &&& final(self).too_far_count() == old(self).too_far_count() + 1
                    &&& final(self).stuck_detections() == old(self).stuck_detections()
                    &&& final(self).steered_frames() == old(self).steered_frames()
                    &&& final(self).frames_beyond() == old(self).frames_beyond()
                    &&& final(self).too_far_limit_spec() == old(self).too_far_limit_spec()
                    &&& final(self).stuck_limit_spec() == old(self).stuck_limit_spec()
                    &&& a == if final(self).too_far_count() > final(self).too_far_limit_spec() {
                        FrameAction::Finish(MoveOutcome::TooFarRetriesExceeded)
                    } else {
                        FrameAction::FarWait { reset_position: final(self).too_far_count() % 10 == 0 }
                    }
                } else if f.stalled && mode != MoveMode::Climb {
                    &&& final(self).stuck_detections() == old(self).stuck_detections() + 1
                    &&& final(self).too_far_count() == old(self).too_far_count()
                    &&& final(self).steered_frames() == old(self).steered_frames()
                    &&& final(self).frames_beyond() == old(self).frames_beyond()
                    &&& final(self).too_far_limit_spec() == old(self).too_far_limit_spec()
                    &&& final(self).stuck_limit_spec() == old(self).stuck_limit_spec()
                    &&& a == if final(self).stuck_detections() > final(self).stuck_limit_spec() {
                        FrameAction::Finish(MoveOutcome::StuckRetriesExceeded)
                    } else {
                        FrameAction::Escape
                    }
                } else {
                    let (frames, run, realign) = steered_outcome(
                        old(self).steered_frames(),
                        old(self).frames_beyond(),
                        f.beyond_tolerance,
                    );
                    &&& a == FrameAction::Steer { realign }
                    &&& final(self).steered_frames() == frames
                    &&& final(self).frames_beyond() == run
                    &&& final(self).too_far_count() == old(self).too_far_count()
                    &&& final(self).stuck_detections() == old(self).stuck_detections()
                    &&& final(self).too_far_limit_spec() == old(self).too_far_limit_spec()
                    &&& final(self).stuck_limit_spec() == old(self).stuck_limit_spec()
                }
            }),
    {
        if f.timed_out {
            return FrameAction::Finish(MoveOutcome::Timeout);
        }
        if !f.captured {
            return FrameAction::Skip;
        }
        let fall_back = move_falls_back_when_unrecognized(mis);
        let far_uses_previous = too_far_uses_previous_point(mis);
        let pos = frame_position(f.located, fall_back, f.last_located);
        let prev = match f.located {
            Some(b) => Some(b),
            None => f.last_located,
        };
        let band = match pos {
            Some(DistanceBand::Far) => match prev {
                Some(p) => if far_uses_previous && p != DistanceBand::Far {
                    Some(p)
                } else {
                    pos
                },
                None => pos,
            },
            _ => pos,
        };
        match band {
            None => FrameAction::Skip,
            Some(DistanceBand::Arrived) => FrameAction::Finish(MoveOutcome::Arrived),
            Some(DistanceBand::Far) => {
                let step = self.on_too_far();
                if step.give_up {
                    FrameAction::Finish(MoveOutcome::TooFarRetriesExceeded)
                } else {
                    FrameAction::FarWait { reset_position: step.reset_position }
                }
            },
            Some(DistanceBand::Near) => {
                if f.stalled && mode != MoveMode::Climb {
                    if self.on_stuck() {
                        FrameAction::Finish(MoveOutcome::StuckRetriesExceeded)
                    } else {
                        FrameAction::Escape
                    }
                } else {
                    let realign = self.on_steered_frame(f.beyond_tolerance);
                    FrameAction::Steer { realign }
                }
            },
        }
    }
}

/// What a frame of movement presses, besides holding the forward key.
#[derive(Debug, Clone, Copy, PartialEq, Eq, Structural)]
pub struct ModeStep {
    /// Press the jump key.
    pub press_space: bool,
    /// Remember that a take-off was pressed.
    pub mark_takeoff: bool,
    /// Hold (`Some(true)`) or release (`Some(false)`) the sprint button.
    pub sprint_hold: Option<bool>,
    /// Click the sprint button once, and remember when.
    pub sprint_click: bool,
    /// How long to wait afterwards, in milliseconds.
    pub wait_ms: u32,
}

/// What one frame of movement in `mode` presses, given whether the waypoint
/// is far (more than 20 away), whether the character was seen flying (where
/// a screenshot was available), whether a take-off was already pressed,
/// whether the sprint button is held, whether a second has passed since the
/// last dash, whether automatic sprinting is on and whether two and a half
/// seconds have passed since the last sprint.
pub open spec fn mode_step_spec(
    mode: MoveMode,
    far: bool,
    seen_flying: Option<bool>,
    takeoff_pressed: bool,
    sprint_held: bool,
    dash_ready: bool,
    auto_run: bool,
    auto_run_ready: bool,
) -> ModeStep {
    match mode {
        MoveMode::Fly => {
            let flying = match seen_flying {
                Some(f) => f,
                None => takeoff_pressed,
            };
            if flying {
                ModeStep { press_space: false, mark_takeoff: false, sprint_hold: None, sprint_click: false, wait_ms: 100 }
            } else {
                ModeStep { press_space: true, mark_takeoff: true, sprint_hold: None, sprint_click: false, wait_ms: 300 }
            }
        },
        MoveMode::Jump => ModeStep {
            press_space: true,
            mark_takeoff: false,
            sprint_hold: None,
            sprint_click: false,
            wait_ms: 200,
        },
        MoveMode::Run => ModeStep {
            press_space: false,
            mark_takeoff: false,
            sprint_hold: if far != sprint_held {
                Some(far)
            } else {
                None
            },
            sprint_click: false,
            wait_ms: 100,
        },
        MoveMode::Dash => ModeStep {
            press_space: false,
            mark_takeoff: false,
            sprint_hold: None,
            sprint_click: far && dash_ready,
            wait_ms: 100,
        },
        MoveMode::Climb => ModeStep {
            press_space: false,
            mark_takeoff: false,
            sprint_hold: None,
            sprint_click: false,
            wait_ms: 100,
        },
        _ => ModeStep {
            press_space: false,
            mark_takeoff: false,
            sprint_hold: None,
            sprint_click: auto_run && far && auto_run_ready,
            wait_ms: 100,
        },
    }
}

/// What one frame of movement in `mode` presses (see [`mode_step_spec`]).
pub fn move_mode_step(
    mode: MoveMode,
    far: bool,
    seen_flying: Option<bool>,
    takeoff_pressed: bool,
    sprint_held: bool,
    dash_ready: bool,
    auto_run: bool,
    auto_run_ready: bool,
) -> (s: ModeStep)
    ensures
        s == mode_step_spec(
            mode,
            far,
            seen_flying,
            takeoff_pressed,
            sprint_held,
            dash_ready,
            auto_run,
            auto_run_ready,
        ),
{
    match mode {
        MoveMode::Fly => {
            let flying = match seen_flying {
                Some(f) => f,
                None => takeoff_pressed,
            };
            if flying {
                ModeStep { press_space: false, mark_takeoff: false, sprint_hold: None, sprint_click: false, wait_ms: 100 }
            } else {
                ModeStep { press_space: true, mark_takeoff: true, sprint_hold: None, sprint_click: false, wait_ms: 300 }
            }
        },
        MoveMode::Jump => ModeStep {
            press_space: true,
            mark_takeoff: false,
            sprint_hold: None,
            sprint_click: false,
            wait_ms: 200,
        },
        MoveMode::Run => {
            let hold = if far != sprint_held {
                Some(far)
            } else {
                None
            };
            ModeStep { press_space: false, mark_takeoff: false, sprint_hold: hold, sprint_click: false, wait_ms: 100 }
        },
        MoveMode::Dash => ModeStep {
            press_space: false,
            mark_takeoff: false,
            sprint_hold: None,
            sprint_click: far && dash_ready,
            wait_ms: 100,
        },
        MoveMode::Climb => ModeStep {
            press_space: false,
            mark_takeoff: false,
            sprint_hold: None,
            sprint_click: false,
            wait_ms: 100,
        },
        _ => ModeStep {
            press_space: false,
            mark_takeoff: false,
            sprint_hold: None,
            sprint_click: auto_run && far && auto_run_ready,
            wait_ms: 100,
        },
    }
}

/// In run mode the sprint button ends up held exactly while the waypoint is
/// far: applying the step to the held state gives `far`.
pub proof fn lemma_run_sprint_follows_distance(far: bool, sprint_held: bool, seen: Option<bool>, tp: bool, dr: bool, ar: bool, arr: bool)
    ensures
        ({
            let s = mode_step_spec(MoveMode::Run, far, seen, tp, sprint_held, dr, ar, arr);
            let held_after = match s.sprint_hold {
                Some(h) => h,
                None => sprint_held,
            };
            held_after == far
        }),
{
}

/// A way of breaking free when stuck: hold a direction key, jump, and keep
/// holding it for `hold_ms` more milliseconds.
#[derive(Debug, Clone, Copy, PartialEq, Eq, Structural)]
pub enum EscapeMove {
    Backward { hold_ms: i64 },
    Left { hold_ms: i64 },
    Right { hold_ms: i64 },
}

/// The number of the next escape attempt: the first again after ten quiet
/// seconds, the one after the last otherwise.
pub open spec fn next_escape_index(last_index: i32, quiet: bool) -> int {
    if quiet {
        0
    } else if last_index < i32::MAX {
        last_index + 1
    } else {
        i32::MAX as int
    }
}

/// The move of escape attempt `index`: backward, left, right in turn, each
/// held a second longer per attempt.
pub open spec fn escape_move_spec(index: int) -> EscapeMove {
    let difference = index * 1000;
    let m = index % 3;
    if m == 0 {
        EscapeMove::Backward { hold_ms: (1000 + difference) as i64 }
    } else if m == 1 {
        EscapeMove::Left { hold_ms: (700 + difference) as i64 }
    } else {
        EscapeMove::Right { hold_ms: (700 + difference) as i64 }
    }
}

/// The next escape attempt after attempt `last_index`, with `quiet` telling
/// whether ten seconds passed since the last one: its number and its move.
pub fn next_escape_move(last_index: i32, quiet: bool) -> (r: (i32, EscapeMove))
    ensures
        r.0 == next_escape_index(last_index, quiet),
        r.1 == escape_move_spec(r.0 as int),
{
    let index: i32 = if quiet {
        0
    } else if last_index < i32::MAX {
        last_index + 1
    } else {
        i32::MAX
    };
    let wide = index as i64;
    let difference = wide * 1000;
    let m: i64 = if wide >= 0 {
        wide % 3
    } else {
        let p = 0 - wide;
        let k = p % 3;
        assert((wide as int) % 3 == (3 - k) % 3) by (nonlinear_arith)
            requires
                p == -wide,
                k == p % 3,
                p > 0,
        ;
        (3 - k) % 3
    };
    let mv = if m == 0 {
        EscapeMove::Backward { hold_ms: 1000 + difference }
    } else if m == 1 {
        EscapeMove::Left { hold_ms: 700 + difference }
    } else {
        EscapeMove::Right { hold_ms: 700 + difference }
    };
    (index, mv)
}

} // verus!
