//! What the route runner decides at each waypoint: the waypoint's effective
//! type, whether to wait before a teleport, whether a new segment starts,
//! which steps run, and how a failed movement is reported.
//!
//! The runner itself (key presses, screenshots, teleporting) performs the
//! steps of a [`WaypointPlan`] and hands back the [`MoveOutcome`].

use vstd::prelude::*;

use vstd::string::StringExecFns;

use crate::navigate::error::NavigateError;
use crate::text::{decimal, decimal_string};
use crate::navigate::path::{
    waypoint_type_of_code, ActionCode, MoveMode, WaypointType,
};

verus! {

broadcast use vstd::string::group_string_axioms;

/// How a movement towards a waypoint ended.
#[derive(Debug, Clone, Copy, PartialEq, Eq, Structural)]
pub enum MoveOutcome {
    Arrived,
    Timeout,
    TooFarRetriesExceeded,
    StuckRetriesExceeded,
}

/// The waypoint type a waypoint is run as: a forced teleport is a teleport,
/// an action that imposes a type gets it, any other waypoint keeps its code.
pub open spec fn effective_waypoint_type(action: ActionCode, type_code: Seq<char>) -> WaypointType {
    match action {
        ActionCode::ForceTp => WaypointType::Teleport,
        ActionCode::Fight => WaypointType::Path,
        ActionCode::HydroCollect | ActionCode::ElectroCollect | ActionCode::AnemoCollect
        | ActionCode::PyroCollect => WaypointType::Target,
        _ => waypoint_type_of_code(type_code),
    }
}

/// The type a waypoint with this action and this type code is run as.
pub fn resolve_waypoint_type(action: &ActionCode, type_code: &str) -> (t: WaypointType)
    ensures
        t == effective_waypoint_type(*action, type_code@),
{
    if matches!(action, ActionCode::ForceTp) {
        WaypointType::Teleport
    } else {
        match action.enforces_waypoint_type() {
            Some(forced) => forced,
            None => WaypointType::from_code(type_code),
        }
    }
}

/// Whether the character should be brought right onto a waypoint after reaching it.
pub open spec fn is_target_point_spec(kind: WaypointType, action: ActionCode) -> bool {
    if kind == WaypointType::Orientation || action is UpDownGrabLeaf {
        false
    } else {
        kind == WaypointType::Target || kind == WaypointType::Teleport || !(action is NoAction)
    }
}

/// Whether the character should be brought right onto a waypoint after
/// reaching it: a target or teleport waypoint, or one with an action, but
/// never an orientation waypoint or a leaf grab.
pub fn is_target_point(kind: WaypointType, action: &ActionCode) -> (r: bool)
    ensures
        r == is_target_point_spec(kind, *action),
{
    if matches!(kind, WaypointType::Orientation) || matches!(action, ActionCode::UpDownGrabLeaf) {
        return false;
    }
    matches!(kind, WaypointType::Target | WaypointType::Teleport) || !matches!(action, ActionCode::NoAction)
}

/// Whether the runner waits before teleporting: only after an earlier
/// waypoint that was neither a teleport nor a fight, a collection with a held
/// skill or a pick-around.
pub open spec fn teleport_delay_spec(prev_kind: Option<WaypointType>, prev_action: ActionCode) -> bool {
    match prev_kind {
        None => false,
        Some(pk) => !(pk == WaypointType::Teleport || prev_action is Fight
            || prev_action is NahidaCollect || prev_action is PickAround),
    }
}

/// Whether the runner waits before teleporting, given the previous waypoint's type and action.
pub fn teleport_needs_delay(prev_kind: Option<WaypointType>, prev_action: &ActionCode) -> (r: bool)
    ensures
        r == teleport_delay_spec(prev_kind, *prev_action),
{
    match prev_kind {
        None => false,
        Some(pk) => {
            let no_delay = matches!(pk, WaypointType::Teleport) || matches!(
                prev_action,
                ActionCode::Fight | ActionCode::NahidaCollect | ActionCode::PickAround
            );
            !no_delay
        },
    }
}

/// Whether a waypoint starts a new segment of the route: the first one, and
/// every one right after a teleport.
pub open spec fn segment_start_spec(prev_kind: Option<WaypointType>) -> bool {
    match prev_kind {
        None => true,
        Some(pk) => pk == WaypointType::Teleport,
    }
}

/// Whether a waypoint after one of this type starts a new segment.
pub fn is_segment_start(prev_kind: Option<WaypointType>) -> (r: bool)
    ensures
        r == segment_start_spec(prev_kind),
{
    match prev_kind {
        None => true,
        Some(pk) => matches!(pk, WaypointType::Teleport),
    }
}

/// The steps the runner takes at one waypoint, in this order: recover and
/// teleport (a teleport waypoint, after the wait where one is due); or face
/// the waypoint, note a new segment, then either grab a leaf or move, stop
/// flying, close in and run the action.
pub struct WaypointPlan {
    /// The type the waypoint is run as.
    pub kind: WaypointType,
    /// Teleport to the waypoint (and nothing else).
    pub teleport: bool,
    /// Wait before teleporting.
    pub delay_before_teleport: bool,
    /// Turn towards the waypoint first.
    pub face_first: bool,
    /// Take the waypoint as the known position that a new segment starts from.
    pub segment_start: bool,
    /// Sweep for a leaf and grab it, in place of moving.
    pub grab_leaf: bool,
    /// Move to the waypoint.
    pub moves: bool,
    /// End a glide with a plunging attack once there.
    pub stop_flying: bool,
    /// Bring the character right onto the waypoint once there.
    pub close_in: bool,
    /// Run the waypoint's action once there.
    pub run_action: bool,
}

/// Whether a plan is the one the runner makes for a waypoint of this type
/// code, movement mode and action, after a waypoint of type `prev_kind` with
/// action `prev_action`.
pub open spec fn is_plan_for(
    p: WaypointPlan,
    prev_kind: Option<WaypointType>,
    prev_action: ActionCode,
    type_code: Seq<char>,
    mode: MoveMode,
    action: ActionCode,
) -> bool {
    let kind = effective_waypoint_type(action, type_code);
    let teleport = kind == WaypointType::Teleport;
    let orientation = kind == WaypointType::Orientation;
    let grab_leaf = !teleport && action is UpDownGrabLeaf;
    let moves = !teleport && !grab_leaf && !orientation;
    &&& p.kind == kind
    &&& p.teleport == teleport
    &&& p.delay_before_teleport == (teleport && teleport_delay_spec(prev_kind, prev_action))
    &&& p.face_first == orientation
    &&& p.segment_start == (!teleport && segment_start_spec(prev_kind))
    &&& p.grab_leaf == grab_leaf
    &&& p.moves == moves
    &&& p.stop_flying == (moves && mode == MoveMode::Fly && action is StopFlying)
    &&& p.close_in == (moves && is_target_point_spec(kind, action))
    &&& p.run_action == (!teleport && !grab_leaf && !(action is NoAction))
}

/// Plan the steps at one waypoint. Whatever the plan, the waypoint's type
/// and action become the previous ones for the next waypoint.
pub fn plan_waypoint(
    prev_kind: Option<WaypointType>,
    prev_action: &ActionCode,
    type_code: &str,
    mode: MoveMode,
    action: &ActionCode,
) -> (p: WaypointPlan)
    ensures
        is_plan_for(p, prev_kind, *prev_action, type_code@, mode, *action),
{
    let kind = resolve_waypoint_type(action, type_code);
    let teleport = matches!(kind, WaypointType::Teleport);
    let orientation = matches!(kind, WaypointType::Orientation);
    let grab_leaf = !teleport && matches!(action, ActionCode::UpDownGrabLeaf);
    let moves = !teleport && !grab_leaf && !orientation;
    let delay = teleport && teleport_needs_delay(prev_kind, prev_action);
    let segment_start = !teleport && is_segment_start(prev_kind);
    let stop_flying = moves && matches!(mode, MoveMode::Fly) && matches!(action, ActionCode::StopFlying);
    let close_in = moves && is_target_point(kind, action);
    let run_action = !teleport && !grab_leaf && !matches!(action, ActionCode::NoAction);
    WaypointPlan {
        kind,
        teleport,
        delay_before_teleport: delay,
        face_first: orientation,
        segment_start,
        grab_leaf,
        moves,
        stop_flying,
        close_in,
        run_action,
    }
}

/// The reason a movement that did not arrive is retried with, if it did not arrive.
pub open spec fn move_failure_reason_spec(outcome: MoveOutcome) -> Option<Seq<char>> {
    match outcome {
        MoveOutcome::Arrived => None,
        MoveOutcome::Timeout => Some("move_to 超时"@),
        MoveOutcome::TooFarRetriesExceeded => Some("move_to 距离过远重试超限"@),
        MoveOutcome::StuckRetriesExceeded => Some("move_to 卡死重试超限"@),
    }
}

/// Why the route segment has to be retried after this movement; nothing
/// where the character arrived.
pub fn move_failure_reason(outcome: MoveOutcome) -> (r: Option<&'static str>)
    ensures
        r is None <==> outcome == MoveOutcome::Arrived,
        r matches Some(s) ==> move_failure_reason_spec(outcome) == Some(s@),
{
    match outcome {
        MoveOutcome::Arrived => None,
        MoveOutcome::Timeout => Some("move_to 超时"),
        MoveOutcome::TooFarRetriesExceeded => Some("move_to 距离过远重试超限"),
        MoveOutcome::StuckRetriesExceeded => Some("move_to 卡死重试超限"),
    }
}

/// The message a route segment is retried with after the movement to
/// waypoint `idx` failed for `reason`.
pub open spec fn retry_message(idx: nat, reason: Seq<char>) -> Seq<char> {
    "["@ + decimal(idx) + "] "@ + reason + "，重试本段路线"@
}

/// `e` is the request to retry the segment after the movement to waypoint
/// `idx` ended with `outcome`.
pub open spec fn is_retry_after(e: NavigateError, idx: nat, outcome: MoveOutcome) -> bool {
    match move_failure_reason_spec(outcome) {
        Some(reason) => e matches NavigateError::Retry(m) && m@ == retry_message(idx, reason),
        None => false,
    }
}

/// What the movement to waypoint `idx` means for the route: nothing where
/// the character arrived, otherwise a request to retry the segment that
/// names the waypoint and the reason.
pub fn waypoint_outcome(idx: usize, o: MoveOutcome) -> (r: Result<(), NavigateError>)
    ensures
        r is Ok <==> o == MoveOutcome::Arrived,
        r matches Err(e) ==> is_retry_after(e, idx as nat, o),
{
    match move_failure_reason(o) {
        None => Ok(()),
        Some(reason) => {
            let mut m = String::from_str("[");
            let n = decimal_string(idx);
            m.append(n.as_str());
            m.append("] ");
            m.append(reason);
            m.append("，重试本段路线");
            Err(NavigateError::Retry(m))
        },
    }
}

/// Where a route run stands after the waypoint it was at.
#[derive(Debug)]
pub enum RouteProgress {
    /// Go on with the waypoint at this position.
    Next(usize),
    /// Every waypoint is done.
    Done,
    /// Stop the run with this error; no later waypoint is visited.
    Stop(NavigateError),
}

/// The run's next step after the movement to waypoint `idx` of `count`
/// ended with `o`: the first waypoint not arrived at stops the run with its
/// retry request, otherwise the run goes on to the next waypoint or is done.
pub fn after_waypoint(idx: usize, count: usize, o: MoveOutcome) -> (p: RouteProgress)
    requires
        idx < count,
    ensures
        o == MoveOutcome::Arrived && idx + 1 < count ==> p == RouteProgress::Next((idx + 1) as usize),
        o == MoveOutcome::Arrived && idx + 1 == count ==> p is Done,
        o != MoveOutcome::Arrived ==> (p matches RouteProgress::Stop(e) && is_retry_after(e, idx as nat, o)),
{
    match waypoint_outcome(idx, o) {
        Err(e) => RouteProgress::Stop(e),
        Ok(()) => if idx + 1 < count {
            RouteProgress::Next(idx + 1)
        } else {
            RouteProgress::Done
        },
    }
}

/// The request to retry the segment once the character was revived at
/// waypoint `idx`.
pub fn revived_retry(idx: usize) -> (e: NavigateError)
    ensures
        e matches NavigateError::Retry(m) && m@ == "["@ + decimal(idx as nat) + "] 复苏完成后重试本段路线"@,
{
    let mut m = String::from_str("[");
    let n = decimal_string(idx);
    m.append(n.as_str());
    m.append("] 复苏完成后重试本段路线");
    NavigateError::Retry(m)
}

/// An orientation waypoint is never moved to, and a waypoint that is moved
/// to is closed in on exactly when it is a target point.
pub proof fn lemma_plan_moves_and_closes(
    p: WaypointPlan,
    prev_kind: Option<WaypointType>,
    prev_action: ActionCode,
    type_code: Seq<char>,
    mode: MoveMode,
    action: ActionCode,
)
    requires
        is_plan_for(p, prev_kind, prev_action, type_code, mode, action),
    ensures
        p.kind == WaypointType::Orientation ==> !p.moves && !p.close_in && !p.stop_flying,
        p.teleport ==> !p.moves && !p.grab_leaf && !p.run_action && !p.segment_start,
        p.moves ==> (p.close_in <==> is_target_point_spec(p.kind, action)),
        p.close_in ==> p.moves,
        p.stop_flying ==> p.moves,
{
}

/// The outcome of an action's handler as the route sees it: an action the
/// handler cannot carry out here is skipped, any other error stops the route.
pub fn settle_action_result(r: Result<(), NavigateError>) -> (s: Result<(), NavigateError>)
    ensures
        match r {
            Ok(()) => s is Ok,
            Err(NavigateError::Unsupported(_)) => s is Ok,
            Err(e) => s == Err::<(), NavigateError>(e),
        },
{
    match r {
        Ok(()) => Ok(()),
        Err(NavigateError::Unsupported(_)) => Ok(()),
        Err(e) => Err(e),
    }
}

/// A step at a waypoint whose failure the route may pass over.
#[derive(Debug, Clone, Copy, PartialEq, Eq, Structural)]
pub enum WaypointStep {
    /// Teleporting to the waypoint.
    Teleport,
    /// Closing in on the waypoint after arriving.
    CloseIn,
    /// The waypoint's action.
    Action,
}

/// What the outcome `r` of a step at a waypoint means for the route: a
/// failed close-in is passed over; a teleport or action that cannot be
/// carried out here (`Unsupported`) is skipped; any other error stops the route.
pub fn settle_step_result(step: WaypointStep, r: Result<(), NavigateError>) -> (s: Result<(), NavigateError>)
    ensures
        step == WaypointStep::CloseIn ==> s is Ok,
        step != WaypointStep::CloseIn ==> match r {
            Ok(()) => s is Ok,
            Err(NavigateError::Unsupported(_)) => s is Ok,
            Err(e) => s == Err::<(), NavigateError>(e),
        },
{
    match step {
        WaypointStep::CloseIn => Ok(()),
        _ => settle_action_result(r),
    }
}

/// How many times a route is run before a request to retry becomes a failure.
pub const ROUTE_RETRY_TIMES: u32 = 2;

/// What follows one run of a route.
#[derive(Debug)]
pub enum RouteAttempt {
    /// The route is done.
    Finished,
    /// The route asked to be retried and may be: run it again.
    RunAgain,
    /// The route failed with this error.
    Failed(NavigateError),
}

/// What follows run number `attempt` (counting from one) of a route that
/// ended with `r`: a request to retry is granted while runs are left.
pub fn after_route_attempt(attempt: u32, r: Result<(), NavigateError>) -> (a: RouteAttempt)
    ensures
        match r {
            Ok(()) => a is Finished,
            Err(NavigateError::Retry(_)) => if attempt < ROUTE_RETRY_TIMES {
                a is RunAgain
            } else {
                a == RouteAttempt::Failed(r->Err_0)
            },
            Err(e) => a == RouteAttempt::Failed(e),
        },
{
    match r {
        Ok(()) => RouteAttempt::Finished,
        Err(NavigateError::Retry(msg)) => {
            if attempt < ROUTE_RETRY_TIMES {
                RouteAttempt::RunAgain
            } else {
                RouteAttempt::Failed(NavigateError::Retry(msg))
            }
        },
        Err(e) => RouteAttempt::Failed(e),
    }
}

/// Whether a failed teleport is followed by pressing escape before the next
/// try: only where the teleport point turned out not to be active.
pub fn teleport_failure_needs_escape(e: &NavigateError) -> (r: bool)
    ensures
        r == (*e is TpPointNotActivate),
{
    matches!(e, NavigateError::TpPointNotActivate(_))
}

/// How many times a teleport is tried.
pub const TELEPORT_TRIES: u32 = 3;

} // verus!
