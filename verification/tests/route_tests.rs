use teyvat_nav::navigate::error::NavigateError;
use teyvat_nav::navigate::executor::{
    after_route_attempt, after_waypoint, is_segment_start, revived_retry, waypoint_outcome, RouteProgress, is_target_point, move_failure_reason, plan_waypoint,
    resolve_waypoint_type, settle_action_result, teleport_failure_needs_escape, teleport_needs_delay,
    MoveOutcome, RouteAttempt,
};
use teyvat_nav::navigate::path::{ActionCode, MoveMode, WaypointType};
use teyvat_nav::text::decimal_string;
use teyvat_nav::navigate::route::{
    default_handling_mode, default_map_name, default_mis_type, default_move_mode, default_type,
    effective_map_name, strip_bom, ExtParams, Misidentification, PathInfo,
};

#[test]
fn waypoint_type_codes_round_trip() {
    for t in [
        WaypointType::Orientation,
        WaypointType::Path,
        WaypointType::Target,
        WaypointType::Teleport,
    ] {
        assert_eq!(WaypointType::from_code(t.code()), t);
    }
    assert_eq!(WaypointType::from_code("teleport"), WaypointType::Teleport);
    assert_eq!(WaypointType::from_code("Teleport"), WaypointType::Unknown);
    assert_eq!(WaypointType::from_code(""), WaypointType::Unknown);
}

#[test]
fn move_mode_codes_round_trip() {
    for m in [
        MoveMode::Climb,
        MoveMode::Dash,
        MoveMode::Fly,
        MoveMode::Jump,
        MoveMode::Run,
        MoveMode::Swim,
        MoveMode::Walk,
    ] {
        assert_eq!(MoveMode::from_code(m.code()), m);
    }
    assert_eq!(MoveMode::from_code("sprint"), MoveMode::Unknown);
}

#[test]
fn action_codes_read_back() {
    assert_eq!(ActionCode::from_optional(None), ActionCode::NoAction);
    assert_eq!(ActionCode::from_optional(Some("")), ActionCode::NoAction);
    assert_eq!(ActionCode::from_code("force_tp"), ActionCode::ForceTp);
    assert_eq!(ActionCode::from_code("wonderland_cycle"), ActionCode::EnterAndExitWonderland);
    assert_eq!(ActionCode::from_code("dance"), ActionCode::Other("dance".to_string()));
    assert_eq!(ActionCode::from_code("pyro_collect").handler_key(), Some("pyro_collect"));
    assert_eq!(ActionCode::NoAction.handler_key(), None);
    assert_eq!(ActionCode::Fight.enforces_waypoint_type(), Some(WaypointType::Path));
    assert_eq!(ActionCode::HydroCollect.enforces_waypoint_type(), Some(WaypointType::Target));
    assert_eq!(ActionCode::Mining.enforces_waypoint_type(), None);
}

#[test]
fn route_file_defaults() {
    assert_eq!(default_map_name(), "Teyvat");
    assert_eq!(default_type(), "path");
    assert_eq!(default_move_mode(), "walk");
    assert_eq!(default_mis_type(), vec!["unrecognized".to_string()]);
    assert_eq!(default_handling_mode(), "previousDetectedPoint");
    let info = PathInfo::default();
    assert_eq!(info.map_name, "");
    assert!(info.tags.is_empty());
    assert_eq!(info.last_modified_time, 0);
    assert_eq!(effective_map_name(&info), "Teyvat");
    let mut named = PathInfo::default();
    named.map_name = "TheChasm".to_string();
    assert_eq!(effective_map_name(&named), "TheChasm");
    let mis = Misidentification::default();
    assert_eq!(mis.kinds, vec!["unrecognized".to_string()]);
    assert_eq!(mis.handling_mode, "previousDetectedPoint");
    assert_eq!(mis.arrival_time, 0);
    let ext = ExtParams::default();
    assert!(ext.misidentification.is_none());
    assert!(ext.monster_tags.is_none());
    assert!(!ext.enable_monser_loot_split);
}

#[test]
fn strip_bom_drops_only_a_leading_mark() {
    let with_bom = [0xEFu8, 0xBB, 0xBF, b'{', b'}'];
    assert_eq!(strip_bom(&with_bom), b"{}");
    assert_eq!(strip_bom(b"{}"), b"{}");
    assert_eq!(strip_bom(&[0xEF, 0xBB]), &[0xEF, 0xBB]);
    assert_eq!(strip_bom(&[0xEF, 0xBB, 0xBF]), b"");
    let inner = [b'a', 0xEF, 0xBB, 0xBF];
    assert_eq!(strip_bom(&inner), &inner);
}

#[test]
fn waypoint_kind_resolution() {
    assert_eq!(resolve_waypoint_type(&ActionCode::ForceTp, "path"), WaypointType::Teleport);
    assert_eq!(resolve_waypoint_type(&ActionCode::Fight, "target"), WaypointType::Path);
    assert_eq!(resolve_waypoint_type(&ActionCode::AnemoCollect, "path"), WaypointType::Target);
    assert_eq!(resolve_waypoint_type(&ActionCode::Mining, "orientation"), WaypointType::Orientation);
}

#[test]
fn target_points() {
    assert!(is_target_point(WaypointType::Target, &ActionCode::NoAction));
    assert!(is_target_point(WaypointType::Teleport, &ActionCode::NoAction));
    assert!(is_target_point(WaypointType::Path, &ActionCode::Mining));
    assert!(!is_target_point(WaypointType::Path, &ActionCode::NoAction));
    assert!(!is_target_point(WaypointType::Orientation, &ActionCode::Mining));
    assert!(!is_target_point(WaypointType::Target, &ActionCode::UpDownGrabLeaf));
}

#[test]
fn teleport_delay_and_segments() {
    assert!(!teleport_needs_delay(None, &ActionCode::NoAction));
    assert!(teleport_needs_delay(Some(WaypointType::Path), &ActionCode::NoAction));
    assert!(!teleport_needs_delay(Some(WaypointType::Teleport), &ActionCode::NoAction));
    assert!(!teleport_needs_delay(Some(WaypointType::Path), &ActionCode::Fight));
    assert!(!teleport_needs_delay(Some(WaypointType::Target), &ActionCode::PickAround));
    assert!(is_segment_start(None));
    assert!(is_segment_start(Some(WaypointType::Teleport)));
    assert!(!is_segment_start(Some(WaypointType::Path)));
}

#[test]
fn waypoint_plans() {
    let tp = plan_waypoint(Some(WaypointType::Path), &ActionCode::NoAction, "teleport", MoveMode::Walk, &ActionCode::NoAction);
    assert_eq!(tp.kind, WaypointType::Teleport);
    assert!(tp.teleport && tp.delay_before_teleport);
    assert!(!tp.moves && !tp.run_action && !tp.segment_start);

    let fly = plan_waypoint(Some(WaypointType::Teleport), &ActionCode::NoAction, "target", MoveMode::Fly, &ActionCode::StopFlying);
    assert!(fly.segment_start && fly.moves && fly.stop_flying && fly.close_in && fly.run_action);

    let leaf = plan_waypoint(None, &ActionCode::NoAction, "path", MoveMode::Walk, &ActionCode::UpDownGrabLeaf);
    assert!(leaf.grab_leaf && !leaf.moves && !leaf.run_action && leaf.segment_start);

    let face = plan_waypoint(Some(WaypointType::Path), &ActionCode::NoAction, "orientation", MoveMode::Walk, &ActionCode::NoAction);
    assert!(face.face_first && !face.moves && !face.close_in && !face.segment_start);
}

#[test]
fn failed_moves_give_reasons() {
    assert_eq!(move_failure_reason(MoveOutcome::Arrived), None);
    assert_eq!(move_failure_reason(MoveOutcome::Timeout), Some("move_to 超时"));
    assert_eq!(move_failure_reason(MoveOutcome::TooFarRetriesExceeded), Some("move_to 距离过远重试超限"));
    assert_eq!(move_failure_reason(MoveOutcome::StuckRetriesExceeded), Some("move_to 卡死重试超限"));
}

#[test]
fn action_and_route_outcomes() {
    assert!(settle_action_result(Ok(())).is_ok());
    assert!(settle_action_result(Err(NavigateError::Unsupported("no sim".into()))).is_ok());
    assert!(matches!(settle_action_result(Err(NavigateError::Timeout("t".into()))), Err(NavigateError::Timeout(m)) if m == "t"));
    assert!(matches!(after_route_attempt(1, Ok(())), RouteAttempt::Finished));
    assert!(matches!(after_route_attempt(1, Err(NavigateError::Retry("r".into()))), RouteAttempt::RunAgain));
    assert!(matches!(after_route_attempt(2, Err(NavigateError::Retry("r".into()))), RouteAttempt::Failed(NavigateError::Retry(m)) if m == "r"));
    assert!(matches!(after_route_attempt(1, Err(NavigateError::Other("o".into()))), RouteAttempt::Failed(NavigateError::Other(_))));
    assert!(teleport_failure_needs_escape(&NavigateError::TpPointNotActivate("x".into())));
    assert!(!teleport_failure_needs_escape(&NavigateError::Timeout("x".into())));
}

fn retry_text(e: NavigateError) -> String {
    match e {
        NavigateError::Retry(m) => m,
        other => panic!("expected a retry, got {:?}", other),
    }
}

#[test]
fn failed_move_asks_to_retry_the_segment() {
    assert!(waypoint_outcome(3, MoveOutcome::Arrived).is_ok());
    assert_eq!(retry_text(waypoint_outcome(3, MoveOutcome::Timeout).unwrap_err()), "[3] move_to 超时，重试本段路线");
    assert_eq!(
        retry_text(waypoint_outcome(12, MoveOutcome::TooFarRetriesExceeded).unwrap_err()),
        "[12] move_to 距离过远重试超限，重试本段路线"
    );
    assert_eq!(
        retry_text(waypoint_outcome(0, MoveOutcome::StuckRetriesExceeded).unwrap_err()),
        "[0] move_to 卡死重试超限，重试本段路线"
    );
    assert_eq!(retry_text(revived_retry(105)), "[105] 复苏完成后重试本段路线");
}

#[test]
fn route_stops_at_the_first_failed_waypoint() {
    assert!(matches!(after_waypoint(0, 3, MoveOutcome::Arrived), RouteProgress::Next(1)));
    assert!(matches!(after_waypoint(2, 3, MoveOutcome::Arrived), RouteProgress::Done));
    match after_waypoint(1, 3, MoveOutcome::Timeout) {
        RouteProgress::Stop(e) => assert_eq!(retry_text(e), "[1] move_to 超时，重试本段路线"),
        other => panic!("expected a stop, got {:?}", other),
    }
}

#[test]
fn decimal_numbers() {
    assert_eq!(decimal_string(0), "0");
    assert_eq!(decimal_string(7), "7");
    assert_eq!(decimal_string(10), "10");
    assert_eq!(decimal_string(usize::MAX), format!("{}", usize::MAX));
}
