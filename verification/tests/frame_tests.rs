use teyvat_nav::navigate::error::NavigateError;
use teyvat_nav::navigate::executor::{settle_step_result, MoveOutcome, WaypointStep};
use teyvat_nav::navigate::locate::{judge_match, locate_over_floors, FloorMatch, FloorTry, LocateStep, MatchVerdict};
use teyvat_nav::navigate::movement::{DistanceBand, FrameAction, MoveFrame, MoveTracker};
use teyvat_nav::navigate::path::MoveMode;
use teyvat_nav::navigate::route::Misidentification;
use teyvat_nav::task::chores::{after_look, relogin_steps, ChoreLook, WaitFor};
use teyvat_nav::task::fishing::{BaitType, RodState};
use teyvat_nav::task::fishing_steps::{
    gate_round_step, trusts_landing, Blackboard, CastAction, CastFrame, CastTracker, EnterAction, EnterTracker,
    RoundGate, RoundStep,
};

fn mis_of(kinds: &[&str], mode: &str) -> Misidentification {
    Misidentification {
        kinds: kinds.iter().map(|k| k.to_string()).collect(),
        handling_mode: mode.to_string(),
        arrival_time: 0,
    }
}

fn frame(located: Option<DistanceBand>, last: Option<DistanceBand>) -> MoveFrame {
    MoveFrame {
        timed_out: false,
        captured: true,
        located,
        last_located: last,
        stalled: false,
        beyond_tolerance: false,
    }
}

#[test]
fn movement_frames() {
    let none = mis_of(&[], "previousDetectedPoint");
    let fallback = mis_of(&["unrecognized"], "previousDetectedPoint");
    let mut t = MoveTracker::new(2, 1);
    let mut f = frame(Some(DistanceBand::Near), None);
    f.timed_out = true;
    assert_eq!(t.move_frame(&none, MoveMode::Walk, f), FrameAction::Finish(MoveOutcome::Timeout));
    let mut f = frame(Some(DistanceBand::Near), None);
    f.captured = false;
    assert_eq!(t.move_frame(&none, MoveMode::Walk, f), FrameAction::Skip);
    assert_eq!(t.move_frame(&none, MoveMode::Walk, frame(None, Some(DistanceBand::Near))), FrameAction::Skip);
    assert_eq!(
        t.move_frame(&fallback, MoveMode::Walk, frame(None, Some(DistanceBand::Arrived))),
        FrameAction::Finish(MoveOutcome::Arrived)
    );
    assert_eq!(
        t.move_frame(&none, MoveMode::Walk, frame(Some(DistanceBand::Near), None)),
        FrameAction::Steer { realign: false }
    );
    assert_eq!(
        t.move_frame(&none, MoveMode::Walk, frame(Some(DistanceBand::Far), None)),
        FrameAction::FarWait { reset_position: false }
    );
    assert_eq!(
        t.move_frame(&none, MoveMode::Walk, frame(Some(DistanceBand::Far), None)),
        FrameAction::FarWait { reset_position: false }
    );
    assert_eq!(
        t.move_frame(&none, MoveMode::Walk, frame(Some(DistanceBand::Far), None)),
        FrameAction::Finish(MoveOutcome::TooFarRetriesExceeded)
    );
}

#[test]
fn movement_stalls_escape_then_give_up() {
    let none = mis_of(&[], "previousDetectedPoint");
    let mut t = MoveTracker::new(50, 1);
    let mut f = frame(Some(DistanceBand::Near), None);
    f.stalled = true;
    assert_eq!(t.move_frame(&none, MoveMode::Climb, f), FrameAction::Steer { realign: false });
    assert_eq!(t.move_frame(&none, MoveMode::Walk, f), FrameAction::Escape);
    assert_eq!(t.move_frame(&none, MoveMode::Walk, f), FrameAction::Finish(MoveOutcome::StuckRetriesExceeded));
}

#[test]
fn movement_realigns_after_a_run_beyond_tolerance() {
    let none = mis_of(&[], "previousDetectedPoint");
    let mut t = MoveTracker::with_default_limits();
    let mut f = frame(Some(DistanceBand::Near), None);
    f.beyond_tolerance = true;
    for _ in 0..30 {
        assert_eq!(t.move_frame(&none, MoveMode::Walk, f), FrameAction::Steer { realign: false });
    }
    assert_eq!(t.move_frame(&none, MoveMode::Walk, f), FrameAction::Steer { realign: true });
}

fn cast(landing: bool, fish: bool, elapsed_ms: u64) -> CastFrame {
    CastFrame { cancelled: false, elapsed_ms, landing, fish_for_bait: fish, rod: RodState::TooFar }
}

#[test]
fn cast_frames() {
    let mut t = CastTracker::new();
    let mut bb = Blackboard::default();
    let mut c = cast(false, false, 0);
    c.cancelled = true;
    assert_eq!(t.cast_frame(&mut bb, c), CastAction::Cancel);
    assert_eq!(t.cast_frame(&mut bb, cast(false, false, 5000)), CastAction::SweepView);
    assert_eq!(t.cast_frame(&mut bb, cast(false, false, 5001)), CastAction::NoLanding);
    assert_eq!(bb.throw_rod_no_target_times, 1);
    assert!(!t.found_landing);

    let mut t = CastTracker::new();
    assert_eq!(t.cast_frame(&mut bb, cast(true, true, 100)), CastAction::Nudge(RodState::TooFar));
    let mut right = cast(true, true, 200);
    right.rod = RodState::JustRight;
    assert_eq!(t.cast_frame(&mut bb, right), CastAction::Release);
    for _ in 0..25 {
        assert_eq!(t.cast_frame(&mut bb, cast(false, false, 9000)), CastAction::Jitter);
    }
    assert_eq!(t.cast_frame(&mut bb, cast(false, false, 9000)), CastAction::RetryCast);
}

#[test]
fn cast_gives_up_on_the_bait() {
    let mut t = CastTracker::new();
    let mut bb = Blackboard::default();
    bb.selected_bait = Some(BaitType::SourBait);
    for _ in 0..10 {
        assert_eq!(t.cast_frame(&mut bb, cast(true, false, 100)), CastAction::WaitForFish);
    }
    assert_eq!(t.cast_frame(&mut bb, cast(true, false, 100)), CastAction::GiveUpBait);
    assert_eq!(bb.throw_rod_no_bait_fish_failures, vec![BaitType::SourBait]);
    assert!(trusts_landing(6000));
    assert!(!trusts_landing(6001));
}

#[test]
fn entering_the_fishing_mode() {
    let mut t = EnterTracker::new(10_000);
    let mut bb = Blackboard::default();
    assert_eq!(t.enter_frame(&mut bb, true, 0, None, false, false), EnterAction::Cancel);
    assert_eq!(t.enter_frame(&mut bb, false, 0, Some("钓鱼"), false, false), EnterAction::PressInteract);
    assert_eq!(t.press_until, Some(3000));
    assert_eq!(t.enter_frame(&mut bb, false, 1000, Some("钓鱼"), false, false), EnterAction::Wait);
    assert_eq!(t.enter_frame(&mut bb, false, 1000, Some("调查"), true, false), EnterAction::ClickStart { identify_bait: true });
    assert!(bb.pitch_reset);
    assert_eq!(t.enter_frame(&mut bb, false, 2000, None, true, false), EnterAction::Wait);
    assert_eq!(t.enter_frame(&mut bb, false, 3000, Some("开始钓鱼"), true, true), EnterAction::PressInteract);
    assert_eq!(t.enter_frame(&mut bb, false, 3500, None, false, true), EnterAction::Entered);
    assert_eq!(t.enter_frame(&mut bb, false, 10_000, None, false, true), EnterAction::TimedOut);
}

fn tried(floor: usize, good: Option<usize>, local: bool) -> FloorTry {
    FloorTry { floor, good, local }
}

#[test]
fn locator_picks_the_floor_with_most_good_matches() {
    let tries = vec![tried(2, Some(20), false), tried(0, Some(30), false), tried(1, Some(30), false), tried(3, None, false)];
    assert_eq!(locate_over_floors(&tries, Some(2)), LocateStep::Continue(Some(FloorMatch { floor: 0, good: 30 })));
    let hot = vec![tried(2, Some(8), true), tried(0, Some(90), false)];
    assert_eq!(locate_over_floors(&hot, Some(2)), LocateStep::Accept(2));
    assert_eq!(locate_over_floors(&vec![tried(0, None, false)], None), LocateStep::Continue(None));
    assert_eq!(judge_match(6, 100, 7, true), MatchVerdict::TooFewKeyPoints);
    assert_eq!(judge_match(40, 14, 15, true), MatchVerdict::TooFewGood { forget_position: true });
    assert_eq!(judge_match(40, 6, 7, false), MatchVerdict::TooFewGood { forget_position: false });
    assert_eq!(judge_match(40, 15, 15, true), MatchVerdict::Enough);
}

#[test]
fn steps_the_route_passes_over() {
    assert!(settle_step_result(WaypointStep::CloseIn, Err(NavigateError::Timeout("t".to_string()))).is_ok());
    assert!(settle_step_result(WaypointStep::Teleport, Err(NavigateError::Unsupported("u".to_string()))).is_ok());
    assert!(matches!(
        settle_step_result(WaypointStep::Teleport, Err(NavigateError::Device("d".to_string()))),
        Err(NavigateError::Device(_))
    ));
    assert!(matches!(
        settle_step_result(WaypointStep::Action, Err(NavigateError::Retry("r".to_string()))),
        Err(NavigateError::Retry(_))
    ));
}

#[test]
fn round_gate_and_chore_looks() {
    assert_eq!(gate_round_step(RoundStep::AdjustView, true, true), RoundGate::Cancel);
    assert_eq!(gate_round_step(RoundStep::AdjustView, false, true), RoundGate::Run(RoundStep::Quit));
    assert_eq!(gate_round_step(RoundStep::AdjustView, false, false), RoundGate::Run(RoundStep::AdjustView));
    assert_eq!(gate_round_step(RoundStep::Pull, true, true), RoundGate::Run(RoundStep::Pull));
    let steps = relogin_steps();
    let step = steps[0];
    let reach = match step.wait_for {
        WaitFor::Appear => true,
        WaitFor::Disappear => false,
    };
    assert_eq!(after_look(&step, 1, reach), ChoreLook::Reached);
    assert_eq!(after_look(&step, 1, !reach), if step.times > 1 { ChoreLook::TryAgain } else { ChoreLook::OutOfTries });
    assert_eq!(after_look(&step, step.times, !reach), ChoreLook::OutOfTries);
}
