//! Waypoint actions: the phase each action runs in, and the parameter
//! handling of the action handlers.

use vstd::prelude::*;

use vstd::string::StringExecFns;

use crate::navigate::error::NavigateError;
use crate::navigate::path::ActionCode;
use crate::text::{
    ascii_lower, chars_eq_str, chars_of, lower_ascii_chars, parse_i32, parse_i32_chars,
    parse_unsigned, parse_unsigned_chars, split_on, split_once, split_once_chars,
    string_from_chars, trim, trim_chars,
};

verus! {

broadcast use vstd::string::group_string_axioms;

/// The point of a waypoint at which an action runs.
#[derive(Debug, Clone, Copy, PartialEq, Eq, Structural)]
pub enum ActionPhase {
    BeforeMoveToTarget,
    BeforeMoveCloseToTarget,
    AfterMoveToTarget,
}

/// The phase in which an action runs; `None` for actions that never run a handler.
pub open spec fn action_phase_of(code: ActionCode) -> Option<ActionPhase> {
    match code {
        ActionCode::NoAction | ActionCode::ForceTp => None,
        ActionCode::UpDownGrabLeaf => Some(ActionPhase::BeforeMoveToTarget),
        ActionCode::StopFlying => Some(ActionPhase::BeforeMoveCloseToTarget),
        _ => Some(ActionPhase::AfterMoveToTarget),
    }
}

/// Whether the handler of `code` runs in `phase`.
pub fn matches_phase(code: &ActionCode, phase: ActionPhase) -> (r: bool)
    ensures
        r == (action_phase_of(*code) == Some(phase)),
{
    match code {
        ActionCode::NoAction | ActionCode::ForceTp => false,
        ActionCode::UpDownGrabLeaf => phase == ActionPhase::BeforeMoveToTarget,
        ActionCode::StopFlying => phase == ActionPhase::BeforeMoveCloseToTarget,
        _ => phase == ActionPhase::AfterMoveToTarget,
    }
}

/// Why the parameters of a `set_time` action were refused.
#[derive(Debug, Clone, PartialEq, Eq)]
pub enum SetTimeParamError {
    /// A non-empty piece without `=`.
    MalformedPair,
    /// `h` is not an integer from 0 to 23.
    InvalidHour,
    /// `m` is not an integer from 0 to 59.
    InvalidMinute,
    /// `skip` is not a boolean word.
    InvalidSkip,
    /// A key other than `h`, `m`, `skip` and `skip_animation` (lower-cased).
    UnsupportedKey(String),
    /// No `h` was given.
    MissingHour,
    /// No `m` was given.
    MissingMinute,
}

/// The error of [`SetTimeParamError`] with the key as characters.
pub enum SetTimeParamFault {
    MalformedPair,
    InvalidHour,
    InvalidMinute,
    InvalidSkip,
    UnsupportedKey(Seq<char>),
    MissingHour,
    MissingMinute,
}

impl View for SetTimeParamError {
    type V = SetTimeParamFault;

    open spec fn view(&self) -> SetTimeParamFault {
        match self {
            SetTimeParamError::MalformedPair => SetTimeParamFault::MalformedPair,
            SetTimeParamError::InvalidHour => SetTimeParamFault::InvalidHour,
            SetTimeParamError::InvalidMinute => SetTimeParamFault::InvalidMinute,
            SetTimeParamError::InvalidSkip => SetTimeParamFault::InvalidSkip,
            SetTimeParamError::UnsupportedKey(k) => SetTimeParamFault::UnsupportedKey(k@),
            SetTimeParamError::MissingHour => SetTimeParamFault::MissingHour,
            SetTimeParamError::MissingMinute => SetTimeParamFault::MissingMinute,
        }
    }
}

/// The settings read so far from `set_time` parameters.
#[derive(Debug, Clone, Copy, PartialEq, Eq, Structural)]
pub struct SetTimeFields {
    pub hour: Option<i32>,
    pub minute: Option<i32>,
    pub skip_animation: bool,
}

/// The settings before any parameter is read.
pub open spec fn set_time_fields_init() -> SetTimeFields {
    SetTimeFields { hour: None, minute: None, skip_animation: true }
}

/// A boolean word (`true`, `1`, `yes`, `y`, `false`, `0`, `no`, `n`, any ASCII case,
/// surrounding white space ignored).
pub open spec fn bool_word(v: Seq<char>) -> Option<bool> {
    let t = trim(v).map_values(|c: char| ascii_lower(c));
    if t == "true"@ || t == "1"@ || t == "yes"@ || t == "y"@ {
        Some(true)
    } else if t == "false"@ || t == "0"@ || t == "no"@ || t == "n"@ {
        Some(false)
    } else {
        None
    }
}

/// The settings after reading one `key=value` piece.
pub open spec fn apply_set_time_pair(st: SetTimeFields, piece: Seq<char>) -> Result<
    SetTimeFields,
    SetTimeParamFault,
> {
    let s = trim(piece);
    if s.len() == 0 {
        Ok(st)
    } else {
        match split_once(s, '=') {
            None => Err(SetTimeParamFault::MalformedPair),
            Some((k, v)) => {
                let key = trim(k).map_values(|c: char| ascii_lower(c));
                let val = trim(v);
                if key == "h"@ {
                    match parse_i32(val) {
                        Some(x) => if 0 <= x <= 23 {
                            Ok(SetTimeFields { hour: Some(x as i32), ..st })
                        } else {
                            Err(SetTimeParamFault::InvalidHour)
                        },
                        None => Err(SetTimeParamFault::InvalidHour),
                    }
                } else if key == "m"@ {
                    match parse_i32(val) {
                        Some(x) => if 0 <= x <= 59 {
                            Ok(SetTimeFields { minute: Some(x as i32), ..st })
                        } else {
                            Err(SetTimeParamFault::InvalidMinute)
                        },
                        None => Err(SetTimeParamFault::InvalidMinute),
                    }
                } else if key == "skip"@ || key == "skip_animation"@ {
                    match bool_word(val) {
                        Some(b) => Ok(SetTimeFields { skip_animation: b, ..st }),
                        None => Err(SetTimeParamFault::InvalidSkip),
                    }
                } else {
                    Err(SetTimeParamFault::UnsupportedKey(key))
                }
            },
        }
    }
}

/// The settings after reading the pieces in order; the first refused piece decides the error.
pub open spec fn read_set_time_pairs(pieces: Seq<Seq<char>>) -> Result<
    SetTimeFields,
    SetTimeParamFault,
>
    decreases pieces.len(),
{
    if pieces.len() == 0 {
        Ok(set_time_fields_init())
    } else {
        match read_set_time_pairs(pieces.drop_last()) {
            Ok(st) => apply_set_time_pair(st, pieces.last()),
            Err(e) => Err(e),
        }
    }
}

/// What the parameters of a `set_time` action ask for: hour, minute and whether
/// to skip the clock animation.
pub open spec fn set_time_params(params: Option<Seq<char>>) -> Result<
    (i32, i32, bool),
    SetTimeParamFault,
> {
    let raw = trim(
        match params {
            Some(p) => p,
            None => Seq::<char>::empty(),
        },
    );
    if raw.len() == 0 {
        Ok((18, 0, true))
    } else {
        match read_set_time_pairs(split_on(raw, ',')) {
            Err(e) => Err(e),
            Ok(st) => match st.hour {
                None => Err(SetTimeParamFault::MissingHour),
                Some(h) => match st.minute {
                    None => Err(SetTimeParamFault::MissingMinute),
                    Some(m) => Ok((h, m, st.skip_animation)),
                },
            },
        }
    }
}

/// Reads a boolean word.
pub fn parse_bool(v: &Vec<char>) -> (r: Option<bool>)
    ensures
        r == bool_word(v@),
{
    let t = lower_ascii_chars(&trim_chars(v));
    if chars_eq_str(&t, "true") || chars_eq_str(&t, "1") || chars_eq_str(&t, "yes")
        || chars_eq_str(&t, "y") {
        Some(true)
    } else if chars_eq_str(&t, "false") || chars_eq_str(&t, "0") || chars_eq_str(&t, "no")
        || chars_eq_str(&t, "n") {
        Some(false)
    } else {
        None
    }
}

/// Reads one `key=value` piece of `set_time` parameters.
pub fn apply_pair(st: SetTimeFields, piece: &Vec<char>) -> (r: Result<
    SetTimeFields,
    SetTimeParamError,
>)
    ensures
        match r {
            Ok(s) => apply_set_time_pair(st, piece@) == Ok::<SetTimeFields, SetTimeParamFault>(s),
            Err(e) => apply_set_time_pair(st, piece@) == Err::<SetTimeFields, SetTimeParamFault>(e@),
        },
{
    let s = trim_chars(piece);
    if s.len() == 0 {
        return Ok(st);
    }
    match split_once_chars(&s, '=') {
        None => Err(SetTimeParamError::MalformedPair),
        Some((k, v)) => {
            let key = lower_ascii_chars(&trim_chars(&k));
            let val = trim_chars(&v);
            if chars_eq_str(&key, "h") {
                match parse_i32_chars(&val) {
                    Some(x) => if 0 <= x && x <= 23 {
                        Ok(SetTimeFields { hour: Some(x), ..st })
                    } else {
                        Err(SetTimeParamError::InvalidHour)
                    },
                    None => Err(SetTimeParamError::InvalidHour),
                }
            } else if chars_eq_str(&key, "m") {
                match parse_i32_chars(&val) {
                    Some(x) => if 0 <= x && x <= 59 {
                        Ok(SetTimeFields { minute: Some(x), ..st })
                    } else {
                        Err(SetTimeParamError::InvalidMinute)
                    },
                    None => Err(SetTimeParamError::InvalidMinute),
                }
            } else if chars_eq_str(&key, "skip") || chars_eq_str(&key, "skip_animation") {
                match parse_bool(&val) {
                    Some(b) => Ok(SetTimeFields { skip_animation: b, ..st }),
                    None => Err(SetTimeParamError::InvalidSkip),
                }
            } else {
                Err(SetTimeParamError::UnsupportedKey(string_from_chars(&key)))
            }
        },
    }
}

/// Reads the parameters of a `set_time` action: comma-separated `h=<0-23>`,
/// `m=<0-59>` and optionally `skip=<bool>`; no parameters at all mean 18:00
/// with the animation skipped. The error says which rule a piece broke.
pub fn read_set_time_params(action_params: Option<&str>) -> (r: Result<
    (i32, i32, bool),
    SetTimeParamError,
>)
    ensures
        match r {
            Ok(t) => set_time_params(
                match action_params {
                    Some(p) => Some(p@),
                    None => None,
                },
            ) == Ok::<(i32, i32, bool), SetTimeParamFault>(t),
            Err(e) => set_time_params(
                match action_params {
                    Some(p) => Some(p@),
                    None => None,
                },
            ) == Err::<(i32, i32, bool), SetTimeParamFault>(e@),
        },
{
    let all: Vec<char> = match action_params {
        Some(p) => chars_of(p),
        None => Vec::new(),
    };
    let raw = trim_chars(&all);
    if raw.len() == 0 {
        return Ok((18, 0, true));
    }
    let mut state: Result<SetTimeFields, SetTimeParamError> = Ok(
        SetTimeFields { hour: None, minute: None, skip_animation: true },
    );
    let mut cur: Vec<char> = Vec::new();
    let mut i: usize = 0;
    proof {
        assert(raw@.take(0) =~= Seq::<char>::empty());
    }
    while i < raw.len()
        invariant
            0 <= i <= raw.len(),
            split_on(raw@.take(i as int), ',').len() >= 1,
            cur@ == split_on(raw@.take(i as int), ',').last(),
            match state {
                Ok(s) => read_set_time_pairs(split_on(raw@.take(i as int), ',').drop_last())
                    == Ok::<SetTimeFields, SetTimeParamFault>(s),
                Err(e) => read_set_time_pairs(split_on(raw@.take(i as int), ',').drop_last())
                    == Err::<SetTimeFields, SetTimeParamFault>(e@),
            },
        decreases raw.len() - i,
    {
        let c = raw[i];
        let ghost prev = split_on(raw@.take(i as int), ',');
        assert(raw@.take(i + 1).drop_last() =~= raw@.take(i as int));
        assert(raw@.take(i + 1).last() == c);
        if c == ',' {
            assert(split_on(raw@.take(i + 1), ',') == prev.push(Seq::<char>::empty()));
            assert(prev.push(Seq::<char>::empty()).drop_last() =~= prev);
            assert(prev =~= prev.drop_last().push(prev.last()));
            state = match state {
                Ok(s) => apply_pair(s, &cur),
                Err(e) => Err(e),
            };
            cur = Vec::new();
        } else {
            let ghost next = prev.update(prev.len() - 1, prev.last().push(c));
            assert(split_on(raw@.take(i + 1), ',') == next);
            assert(next.drop_last() =~= prev.drop_last());
            cur.push(c);
        }
        i = i + 1;
    }
    assert(raw@.take(i as int) =~= raw@);
    let ghost pieces = split_on(raw@, ',');
    assert(pieces =~= pieces.drop_last().push(pieces.last()));
    let fields = match state {
        Ok(s) => apply_pair(s, &cur),
        Err(e) => Err(e),
    };
    match fields {
        Err(e) => Err(e),
        Ok(st) => match st.hour {
            None => Err(SetTimeParamError::MissingHour),
            Some(h) => match st.minute {
                None => Err(SetTimeParamError::MissingMinute),
                Some(m) => Ok((h, m, st.skip_animation)),
            },
        },
    }
}

/// Presses the interact key a number of times to mine a deposit.
pub struct MiningHandler;

/// Presses the interact key a number of times to gather materials.
pub struct PickUpCollectHandler;

/// Turns around in steps, trying to pick something up at each step.
pub struct PickAroundHandler;

/// A single normal attack.
pub struct NormalAttackHandler;

/// Writes its parameters to the log.
pub struct LogOutputHandler;

/// Ends a glide with a plunging attack.
pub struct StopFlyingHandler;

/// Sweeps the view up and down until a leaf appears, then grabs it.
pub struct UpDownGrabLeafHandler;

/// Collects with a held elemental skill.
pub struct NahidaCollectHandler;

/// Mines with a dedicated character.
pub struct LinneaMiningHandler;

/// Runs an inline combat script.
pub struct CombatScriptHandler;

/// Sets the in-game time.
pub struct SetTimeHandler;

/// Leaves the game and logs in again.
pub struct ExitAndReloginHandler;

/// Enters the wonderland lobby and returns.
pub struct WonderlandCycleHandler;

/// Stands for an action that is not supported, with the reason.
pub struct UnsupportedHandler {
    pub name: &'static str,
    pub reason: &'static str,
}

/// A count parameter: the parameters read as a `u32`, or `default` where
/// they are missing or not a number.
pub open spec fn count_param(params: Option<Seq<char>>, default: u32) -> u32 {
    match params {
        Some(p) => match parse_unsigned(p, u32::MAX as nat) {
            Some(v) => v as u32,
            None => default,
        },
        None => default,
    }
}

/// Reads a count parameter.
fn read_count(params: Option<&str>, default: u32) -> (n: u32)
    ensures
        n == count_param(
            match params {
                Some(p) => Some(p@),
                None => None,
            },
            default,
        ),
{
    match params {
        Some(p) => {
            let v = chars_of(p);
            match parse_unsigned_chars(&v, u32::MAX as u64) {
                Some(n) => n as u32,
                None => default,
            }
        },
        None => default,
    }
}

impl MiningHandler {
    /// How often to press the interact key (6 unless the parameters say otherwise).
    pub fn press_count(params: Option<&str>) -> (n: u32)
        ensures
            n == count_param(
                match params {
                    Some(p) => Some(p@),
                    None => None,
                },
                6,
            ),
    {
        read_count(params, 6)
    }
}

impl PickUpCollectHandler {
    /// How often to press the interact key (8 unless the parameters say otherwise).
    pub fn press_count(params: Option<&str>) -> (n: u32)
        ensures
            n == count_param(
                match params {
                    Some(p) => Some(p@),
                    None => None,
                },
                8,
            ),
    {
        read_count(params, 8)
    }
}

/// The horizontal mouse step of one turn when turning around in `turns`
/// steps: a full turn shared out, but at least 60.
pub open spec fn pick_around_step(turns: u32) -> i32 {
    let t: int = if turns >= 1 { turns as int } else { 1 };
    if t <= i32::MAX && 1024int / t > 60 {
        (1024int / t) as i32
    } else {
        60
    }
}

impl PickAroundHandler {
    /// The number of turns (8 unless the parameters say otherwise) and the
    /// mouse step of each turn.
    pub fn plan(params: Option<&str>) -> (r: (u32, i32))
        ensures
            r.0 == count_param(
                match params {
                    Some(p) => Some(p@),
                    None => None,
                },
                8,
            ),
            r.1 == pick_around_step(r.0),
    {
        let turns = read_count(params, 8);
        let t: u32 = if turns > 1 {
            turns
        } else {
            1
        };
        let dx: i32 = if t <= 0x7fff_ffff {
            let q = 1024 / (t as i32);
            if q > 60 {
                q
            } else {
                60
            }
        } else {
            60
        };
        (turns, dx)
    }

    /// Whether turn `i` also steps forward (every other turn, starting with the first).
    pub fn steps_forward(i: u32) -> (r: bool)
        ensures
            r == (i % 2 == 0),
    {
        i % 2 == 0
    }
}

impl StopFlyingHandler {
    /// How long to glide, in milliseconds, before the plunge; `None` where
    /// the parameters are missing or not a number, and the plunge comes at once.
    pub fn glide_ms(params: Option<&str>) -> (r: Option<u64>)
        ensures
            r == match params {
                Some(p) => match parse_unsigned(p@, u64::MAX as nat) {
                    Some(v) => Some(v as u64),
                    None => None,
                },
                None => None,
            },
    {
        match params {
            Some(p) => {
                let v = chars_of(p);
                parse_unsigned_chars(&v, u64::MAX)
            },
            None => None,
        }
    }
}

/// The mouse steps of the skill sweep used to collect: fifteen steps
/// `(400, 500)`, then sixty steps `(400, y)` where `y` is -30 for the
/// first nineteen and -50 for the other forty-one.
pub open spec fn sweep_step(i: int) -> (i32, i32) {
    if i < 15 {
        (400i32, 500i32)
    } else if i < 34 {
        (400i32, -30i32)
    } else {
        (400i32, -50i32)
    }
}

impl NahidaCollectHandler {
    /// The mouse steps of the collecting sweep, in order.
    pub fn sweep_moves() -> (v: Vec<(i32, i32)>)
        ensures
            v@.len() == 75,
            forall|i: int| 0 <= i < 75 ==> #[trigger] v@[i] == sweep_step(i),
    {
        let mut v: Vec<(i32, i32)> = Vec::new();
        let mut k: usize = 0;
        while k < 15
            invariant
                0 <= k <= 15,
                v@.len() == k,
                forall|i: int| 0 <= i < k ==> #[trigger] v@[i] == sweep_step(i),
            decreases 15 - k,
        {
            v.push((400, 500));
            k = k + 1;
        }
        let mut i: i32 = 60;
        let mut y: i32 = -30;
        while i > 0
            invariant
                0 <= i <= 60,
                v@.len() == 15 + (60 - i),
                y == if i > 40 { -30 } else { -50 },
                forall|j: int| 0 <= j < v@.len() ==> #[trigger] v@[j] == sweep_step(j),
            decreases i,
        {
            i = i - 1;
            if i == 40 {
                y = y - 20;
            }
            v.push((400, y));
        }
        v
    }
}

/// Where a leaf sweep stands: the vertical mouse step, the sweeps left and
/// how many screenshots in a row have shown the leaf.
#[derive(Debug, Clone, Copy, PartialEq, Eq, Structural)]
pub struct LeafSweep {
    pub vertical_movement: i32,
    pub remaining_cycles: i32,
    pub consecutive_detections: i32,
}

/// What to do after a screenshot of the leaf sweep.
#[derive(Debug, Clone, Copy, PartialEq, Eq, Structural)]
pub enum LeafAction {
    /// The leaf was seen twice in a row: grab it.
    Grab,
    /// The leaf was seen once: look again after a short wait.
    Recheck,
    /// No leaf: move the view vertically by this much.
    Move(i32),
}

/// The sweep starts upwards, unless non-empty parameters other than `up` say otherwise.
pub open spec fn leaf_direction(params: Option<Seq<char>>) -> int {
    match params {
        Some(p) => if p.len() == 0 || p == "up"@ {
            1
        } else {
            -1
        },
        None => 1,
    }
}

impl LeafSweep {
    /// The sweep holds one of its reachable states.
    pub open spec fn wf(&self) -> bool {
        &&& (self.vertical_movement == 1000 || self.vertical_movement == -1000)
        &&& 0 <= self.remaining_cycles <= 40
        &&& 0 <= self.consecutive_detections < 2
    }

    /// A new sweep of forty steps of 1000 in the direction the parameters give.
    pub fn start(params: Option<&str>) -> (s: Self)
        ensures
            s.wf(),
            s.vertical_movement == leaf_direction(
                match params {
                    Some(p) => Some(p@),
                    None => None,
                },
            ) * 1000,
            s.remaining_cycles == 40,
            s.consecutive_detections == 0,
    {
        let mut direction: i32 = 1;
        if let Some(p) = params {
            let v = chars_of(p);
            if v.len() > 0 {
                direction = if crate::text::str_eq(p, "up") {
                    1
                } else {
                    -1
                };
            }
        }
        LeafSweep { vertical_movement: direction * 1000, remaining_cycles: 40, consecutive_detections: 0 }
    }

    /// Starts the next round: `false` once all sweeps are used up; otherwise
    /// the direction turns on every tenth remaining sweep and a screenshot is due.
    pub fn begin_round(&mut self) -> (more: bool)
        requires
            old(self).wf(),
        ensures
            final(self).wf(),
            more == (old(self).remaining_cycles > 0),
            final(self).remaining_cycles == old(self).remaining_cycles,
            final(self).consecutive_detections == old(self).consecutive_detections,
            final(self).vertical_movement == if more && old(self).remaining_cycles % 10 == 0 {
                -old(self).vertical_movement
            } else {
                old(self).vertical_movement as int
            },
    {
        if self.remaining_cycles <= 0 {
            return false;
        }
        if self.remaining_cycles % 10 == 0 {
            self.vertical_movement = -self.vertical_movement;
        }
        true
    }

    /// Takes in whether the screenshot showed the leaf and says what to do.
    pub fn on_screenshot(&mut self, detected: bool) -> (a: LeafAction)
        requires
            old(self).wf(),
            old(self).remaining_cycles > 0,
        ensures
            final(self).vertical_movement == old(self).vertical_movement,
            detected && old(self).consecutive_detections + 1 >= 2 ==> a == LeafAction::Grab
                && final(self).remaining_cycles == old(self).remaining_cycles,
            detected && old(self).consecutive_detections + 1 < 2 ==> a == LeafAction::Recheck
                && final(self).consecutive_detections == old(self).consecutive_detections + 1
                && final(self).remaining_cycles == old(self).remaining_cycles && final(self).wf(),
            !detected ==> a == LeafAction::Move(old(self).vertical_movement)
                && final(self).consecutive_detections == 0 && final(self).remaining_cycles
                == old(self).remaining_cycles - 1 && final(self).wf(),
    {
        if detected {
            self.consecutive_detections = self.consecutive_detections + 1;
            if self.consecutive_detections >= 2 {
                return LeafAction::Grab;
            }
            LeafAction::Recheck
        } else {
            self.consecutive_detections = 0;
            self.remaining_cycles = self.remaining_cycles - 1;
            LeafAction::Move(self.vertical_movement)
        }
    }
}

/// The combat script a fight action names: the trimmed parameters, unless
/// they are empty or ask for automatic choice by party.
pub open spec fn fight_script_name(params: Option<Seq<char>>) -> Option<Seq<char>> {
    match params {
        Some(p) => if trim(p).len() > 0 && trim(p) != "根据队伍自动选择"@ {
            Some(trim(p))
        } else {
            None
        },
        None => None,
    }
}

/// Runs a combat script through a fight runner.
pub struct FightHandler<R> {
    pub runner: R,
    /// The folder of the combat scripts.
    pub script_root: String,
    pub default_team_csv: String,
    pub default_timeout: u64,
}

impl<R> FightHandler<R> {
    /// The name of the script file (without `.txt`) the parameters ask for;
    /// `None` means the whole script folder.
    pub fn script_name(params: Option<&str>) -> (r: Option<String>)
        ensures
            match r {
                Some(s) => fight_script_name(
                    match params {
                        Some(p) => Some(p@),
                        None => None,
                    },
                ) == Some(s@),
                None => fight_script_name(
                    match params {
                        Some(p) => Some(p@),
                        None => None,
                    },
                ) is None,
            },
    {
        match params {
            None => None,
            Some(p) => {
                let t = trim_chars(&chars_of(p));
                if t.len() > 0 && !chars_eq_str(&t, "根据队伍自动选择") {
                    Some(string_from_chars(&t))
                } else {
                    None
                }
            },
        }
    }
}

/// The element of a collecting character.
#[derive(Debug, Clone, Copy, PartialEq, Eq, Structural)]
pub enum ElementalType {
    Hydro,
    Electro,
    Anemo,
    Pyro,
}

/// The Chinese name of an element.
pub open spec fn element_chinese(e: ElementalType) -> Seq<char> {
    match e {
        ElementalType::Hydro => "水"@,
        ElementalType::Electro => "雷"@,
        ElementalType::Anemo => "风"@,
        ElementalType::Pyro => "火"@,
    }
}

impl ElementalType {
    /// The Chinese name of the element.
    pub fn to_chinese(self) -> (s: &'static str)
        ensures
            s@ == element_chinese(self),
    {
        match self {
            ElementalType::Hydro => "水",
            ElementalType::Electro => "雷",
            ElementalType::Anemo => "风",
            ElementalType::Pyro => "火",
        }
    }
}

/// A character that can collect with an element: by normal attack, by
/// elemental skill, or both (the attack is used then).
pub struct CollectorEntry {
    pub name: Seq<char>,
    pub element: ElementalType,
    pub normal: bool,
    pub skill: bool,
}

/// The characters that can collect with an element, in table order.
pub open spec fn collector_table() -> Seq<CollectorEntry> {
    seq![
        CollectorEntry { name: "芭芭拉"@, element: ElementalType::Hydro, normal: true, skill: true },
        CollectorEntry { name: "莫娜"@, element: ElementalType::Hydro, normal: true, skill: false },
        CollectorEntry { name: "珊瑚宫心海"@, element: ElementalType::Hydro, normal: true, skill: true },
        CollectorEntry { name: "玛拉妮"@, element: ElementalType::Hydro, normal: true, skill: false },
        CollectorEntry { name: "那维莱特"@, element: ElementalType::Hydro, normal: true, skill: true },
        CollectorEntry { name: "芙宁娜"@, element: ElementalType::Hydro, normal: true, skill: false },
        CollectorEntry { name: "妮露"@, element: ElementalType::Hydro, normal: false, skill: true },
        CollectorEntry { name: "坎蒂斯"@, element: ElementalType::Hydro, normal: false, skill: true },
        CollectorEntry { name: "行秋"@, element: ElementalType::Hydro, normal: false, skill: true },
        CollectorEntry { name: "神里绫人"@, element: ElementalType::Hydro, normal: false, skill: true },
        CollectorEntry { name: "丽莎"@, element: ElementalType::Electro, normal: true, skill: true },
        CollectorEntry { name: "八重神子"@, element: ElementalType::Electro, normal: true, skill: false },
        CollectorEntry { name: "瓦雷莎"@, element: ElementalType::Electro, normal: true, skill: false },
        CollectorEntry { name: "雷电将军"@, element: ElementalType::Electro, normal: false, skill: true },
        CollectorEntry { name: "久岐忍"@, element: ElementalType::Electro, normal: false, skill: true },
        CollectorEntry { name: "北斗"@, element: ElementalType::Electro, normal: false, skill: true },
        CollectorEntry { name: "菲谢尔"@, element: ElementalType::Electro, normal: false, skill: true },
        CollectorEntry { name: "雷泽"@, element: ElementalType::Electro, normal: false, skill: true },
        CollectorEntry { name: "砂糖"@, element: ElementalType::Anemo, normal: true, skill: true },
        CollectorEntry { name: "鹿野院平藏"@, element: ElementalType::Anemo, normal: true, skill: true },
        CollectorEntry { name: "流浪者"@, element: ElementalType::Anemo, normal: true, skill: false },
        CollectorEntry { name: "闲云"@, element: ElementalType::Anemo, normal: true, skill: false },
        CollectorEntry { name: "蓝砚"@, element: ElementalType::Anemo, normal: true, skill: false },
        CollectorEntry { name: "枫原万叶"@, element: ElementalType::Anemo, normal: false, skill: true },
        CollectorEntry { name: "珐露珊"@, element: ElementalType::Anemo, normal: false, skill: true },
        CollectorEntry { name: "琳妮特"@, element: ElementalType::Anemo, normal: false, skill: true },
        CollectorEntry { name: "温迪"@, element: ElementalType::Anemo, normal: false, skill: true },
        CollectorEntry { name: "琴"@, element: ElementalType::Anemo, normal: false, skill: true },
        CollectorEntry { name: "早柚"@, element: ElementalType::Anemo, normal: false, skill: true },
        CollectorEntry { name: "烟绯"@, element: ElementalType::Pyro, normal: true, skill: true },
        CollectorEntry { name: "迪卢克"@, element: ElementalType::Pyro, normal: false, skill: true },
        CollectorEntry { name: "可莉"@, element: ElementalType::Pyro, normal: true, skill: true },
        CollectorEntry { name: "班尼特"@, element: ElementalType::Pyro, normal: false, skill: true },
        CollectorEntry { name: "香菱"@, element: ElementalType::Pyro, normal: false, skill: true },
        CollectorEntry { name: "托马"@, element: ElementalType::Pyro, normal: false, skill: true },
        CollectorEntry { name: "胡桃"@, element: ElementalType::Pyro, normal: false, skill: true },
        CollectorEntry { name: "迪希雅"@, element: ElementalType::Pyro, normal: false, skill: true },
        CollectorEntry { name: "夏沃蕾"@, element: ElementalType::Pyro, normal: false, skill: true },
        CollectorEntry { name: "辛焱"@, element: ElementalType::Pyro, normal: false, skill: true },
        CollectorEntry { name: "林尼"@, element: ElementalType::Pyro, normal: false, skill: true },
        CollectorEntry { name: "宵宫"@, element: ElementalType::Pyro, normal: false, skill: true },
    ]
}

/// One entry of the collector table, as the library holds it.
#[derive(Clone, Copy)]
struct Collector {
    name: &'static str,
    element: ElementalType,
    normal: bool,
    skill: bool,
}

/// The collector table, as the library holds it.
fn collectors() -> (v: Vec<Collector>)
    ensures
        v@.len() == collector_table().len(),
        forall|i: int|
            0 <= i < v@.len() ==> (#[trigger] v@[i]).name@ == collector_table()[i].name && v@[i].element
                == collector_table()[i].element && v@[i].normal == collector_table()[i].normal
                && v@[i].skill == collector_table()[i].skill,
{
    let v = vec![
        Collector { name: "芭芭拉", element: ElementalType::Hydro, normal: true, skill: true },
        Collector { name: "莫娜", element: ElementalType::Hydro, normal: true, skill: false },
        Collector { name: "珊瑚宫心海", element: ElementalType::Hydro, normal: true, skill: true },
        Collector { name: "玛拉妮", element: ElementalType::Hydro, normal: true, skill: false },
        Collector { name: "那维莱特", element: ElementalType::Hydro, normal: true, skill: true },
        Collector { name: "芙宁娜", element: ElementalType::Hydro, normal: true, skill: false },
        Collector { name: "妮露", element: ElementalType::Hydro, normal: false, skill: true },
        Collector { name: "坎蒂斯", element: ElementalType::Hydro, normal: false, skill: true },
        Collector { name: "行秋", element: ElementalType::Hydro, normal: false, skill: true },
        Collector { name: "神里绫人", element: ElementalType::Hydro, normal: false, skill: true },
        Collector { name: "丽莎", element: ElementalType::Electro, normal: true, skill: true },
        Collector { name: "八重神子", element: ElementalType::Electro, normal: true, skill: false },
        Collector { name: "瓦雷莎", element: ElementalType::Electro, normal: true, skill: false },
        Collector { name: "雷电将军", element: ElementalType::Electro, normal: false, skill: true },
        Collector { name: "久岐忍", element: ElementalType::Electro, normal: false, skill: true },
        Collector { name: "北斗", element: ElementalType::Electro, normal: false, skill: true },
        Collector { name: "菲谢尔", element: ElementalType::Electro, normal: false, skill: true },
        Collector { name: "雷泽", element: ElementalType::Electro, normal: false, skill: true },
        Collector { name: "砂糖", element: ElementalType::Anemo, normal: true, skill: true },
        Collector { name: "鹿野院平藏", element: ElementalType::Anemo, normal: true, skill: true },
        Collector { name: "流浪者", element: ElementalType::Anemo, normal: true, skill: false },
        Collector { name: "闲云", element: ElementalType::Anemo, normal: true, skill: false },
        Collector { name: "蓝砚", element: ElementalType::Anemo, normal: true, skill: false },
        Collector { name: "枫原万叶", element: ElementalType::Anemo, normal: false, skill: true },
        Collector { name: "珐露珊", element: ElementalType::Anemo, normal: false, skill: true },
        Collector { name: "琳妮特", element: ElementalType::Anemo, normal: false, skill: true },
        Collector { name: "温迪", element: ElementalType::Anemo, normal: false, skill: true },
        Collector { name: "琴", element: ElementalType::Anemo, normal: false, skill: true },
        Collector { name: "早柚", element: ElementalType::Anemo, normal: false, skill: true },
        Collector { name: "烟绯", element: ElementalType::Pyro, normal: true, skill: true },
        Collector { name: "迪卢克", element: ElementalType::Pyro, normal: false, skill: true },
        Collector { name: "可莉", element: ElementalType::Pyro, normal: true, skill: true },
        Collector { name: "班尼特", element: ElementalType::Pyro, normal: false, skill: true },
        Collector { name: "香菱", element: ElementalType::Pyro, normal: false, skill: true },
        Collector { name: "托马", element: ElementalType::Pyro, normal: false, skill: true },
        Collector { name: "胡桃", element: ElementalType::Pyro, normal: false, skill: true },
        Collector { name: "迪希雅", element: ElementalType::Pyro, normal: false, skill: true },
        Collector { name: "夏沃蕾", element: ElementalType::Pyro, normal: false, skill: true },
        Collector { name: "辛焱", element: ElementalType::Pyro, normal: false, skill: true },
        Collector { name: "林尼", element: ElementalType::Pyro, normal: false, skill: true },
        Collector { name: "宵宫", element: ElementalType::Pyro, normal: false, skill: true },
    ];
    assert(v@.len() == collector_table().len());
    v
}

/// The first table entry for the character `name` with element `e`.
pub open spec fn collector_entry(tbl: Seq<CollectorEntry>, name: Seq<char>, e: ElementalType) -> Option<
    CollectorEntry,
>
    decreases tbl.len(),
{
    if tbl.len() == 0 {
        None
    } else if tbl[0].name == name && tbl[0].element == e {
        Some(tbl[0])
    } else {
        collector_entry(tbl.drop_first(), name, e)
    }
}

/// How the chosen character collects.
#[derive(Debug, Clone, Copy, PartialEq, Eq, Structural)]
pub enum CollectMove {
    NormalAttack,
    ElementalSkill,
    /// The table gives the character neither way (never the case for the known characters).
    Nothing,
}

/// The way an entry collects.
pub open spec fn collect_move_of(c: CollectorEntry) -> CollectMove {
    if c.normal {
        CollectMove::NormalAttack
    } else if c.skill {
        CollectMove::ElementalSkill
    } else {
        CollectMove::Nothing
    }
}

/// The first party member from position `from` on who can collect with `e`.
pub open spec fn first_collector(team: Seq<Seq<char>>, e: ElementalType, from: int) -> Option<(int, CollectMove)>
    decreases team.len() - from,
{
    if from >= team.len() || from < 0 {
        None
    } else {
        match collector_entry(collector_table(), team[from], e) {
            Some(c) => Some((from, collect_move_of(c))),
            None => first_collector(team, e, from + 1),
        }
    }
}

/// Collects with a character of the given element.
pub struct ElementalCollectHandler {
    pub element: ElementalType,
}

impl ElementalCollectHandler {
    /// The first party member (by position in `team`, the party's names in
    /// order) who can collect with this element, and how; `None` where nobody can.
    pub fn choose_collector(&self, team: &Vec<String>) -> (r: Option<(usize, CollectMove)>)
        ensures
            match r {
                Some((i, m)) => first_collector(team@.map_values(|s: String| s@), self.element, 0)
                    == Some((i as int, m)),
                None => first_collector(team@.map_values(|s: String| s@), self.element, 0) is None,
            },
    {
        let table = collectors();
        let ghost names = team@.map_values(|s: String| s@);
        let mut i: usize = 0;
        while i < team.len()
            invariant
                names == team@.map_values(|s: String| s@),
                table@.len() == collector_table().len(),
                forall|k: int|
                    0 <= k < table@.len() ==> (#[trigger] table@[k]).name@ == collector_table()[k].name
                        && table@[k].element == collector_table()[k].element && table@[k].normal
                        == collector_table()[k].normal && table@[k].skill == collector_table()[k].skill,
                0 <= i <= team@.len(),
                first_collector(names, self.element, 0) == first_collector(names, self.element, i as int),
            decreases team@.len() - i,
        {
            let name = team[i].as_str();
            let mut k: usize = 0;
            let ghost tbl = collector_table();
            assert(tbl.skip(0) =~= tbl);
            while k < table.len()
                invariant
                    table@.len() == tbl.len(),
                    tbl == collector_table(),
                    forall|j: int|
                        0 <= j < table@.len() ==> (#[trigger] table@[j]).name@ == tbl[j].name
                            && table@[j].element == tbl[j].element && table@[j].normal == tbl[j].normal
                            && table@[j].skill == tbl[j].skill,
                    0 <= k <= table@.len(),
                    0 <= i < names.len(),
                    names == team@.map_values(|s: String| s@),
                    first_collector(names, self.element, 0) == first_collector(
                        names,
                        self.element,
                        i as int,
                    ),
                    name@ == names[i as int],
                    collector_entry(tbl, name@, self.element) == collector_entry(tbl.skip(k as int), name@, self.element),
                decreases table@.len() - k,
            {
                let c = table[k];
                let ghost rest = tbl.skip(k as int);
                assert(rest[0] == tbl[k as int]);
                assert(rest.drop_first() =~= tbl.skip(k + 1));
                if crate::text::str_eq(c.name, name) && c.element == self.element {
                    assert(collector_entry(tbl, name@, self.element) == Some(tbl[k as int]));
                    assert(first_collector(names, self.element, i as int) == Some(
                        (i as int, collect_move_of(tbl[k as int])),
                    ));
                    let m = if c.normal {
                        CollectMove::NormalAttack
                    } else if c.skill {
                        CollectMove::ElementalSkill
                    } else {
                        CollectMove::Nothing
                    };
                    return Some((i, m));
                }
                k = k + 1;
            }
            assert(tbl.skip(k as int).len() == 0);
            assert(first_collector(names, self.element, i as int) == first_collector(
                names,
                self.element,
                i + 1,
            ));
            i = i + 1;
        }
        None
    }
}

/// The message a refused `set_time` parameter is reported with.
pub open spec fn set_time_fault_message(f: SetTimeParamFault) -> Seq<char> {
    match f {
        SetTimeParamFault::MalformedPair => "set_time 参数格式错误，应为: h=<0-23>,m=<0-59>[,skip=true|false]"@,
        SetTimeParamFault::InvalidHour => "set_time: h 必须是 0-23 的整数"@,
        SetTimeParamFault::InvalidMinute => "set_time: m 必须是 0-59 的整数"@,
        SetTimeParamFault::InvalidSkip => "set_time: skip 必须是 true/false（或 1/0）"@,
        SetTimeParamFault::UnsupportedKey(k) => "set_time: 不支持的参数 `"@ + k + "`，仅支持 h,m,skip"@,
        SetTimeParamFault::MissingHour => "set_time: 缺少参数 h，应为 0-23 的整数"@,
        SetTimeParamFault::MissingMinute => "set_time: 缺少参数 m，应为 0-59 的整数"@,
    }
}

impl SetTimeParamError {
    /// The navigation error this refusal is reported as: the action is not
    /// supported with these parameters, which the route treats as a skipped action.
    pub fn into_navigate_error(self) -> (e: NavigateError)
        ensures
            e matches NavigateError::Unsupported(m) && m@ == set_time_fault_message(self@),
    {
        let m = match self {
            SetTimeParamError::MalformedPair => String::from_str(
                "set_time 参数格式错误，应为: h=<0-23>,m=<0-59>[,skip=true|false]",
            ),
            SetTimeParamError::InvalidHour => String::from_str("set_time: h 必须是 0-23 的整数"),
            SetTimeParamError::InvalidMinute => String::from_str("set_time: m 必须是 0-59 的整数"),
            SetTimeParamError::InvalidSkip => String::from_str("set_time: skip 必须是 true/false（或 1/0）"),
            SetTimeParamError::UnsupportedKey(k) => {
                let mut m = String::from_str("set_time: 不支持的参数 `");
                m.append(k.as_str());
                m.append("`，仅支持 h,m,skip");
                m
            },
            SetTimeParamError::MissingHour => String::from_str("set_time: 缺少参数 h，应为 0-23 的整数"),
            SetTimeParamError::MissingMinute => String::from_str("set_time: 缺少参数 m，应为 0-59 的整数"),
        };
        NavigateError::Unsupported(m)
    }
}

/// Reads the parameters of a `set_time` action (see [`read_set_time_params`]);
/// refused parameters come back as [`NavigateError::Unsupported`] with the
/// message that names the broken rule.
pub fn parse_set_time_params(action_params: Option<&str>) -> (r: Result<(i32, i32, bool), NavigateError>)
    ensures
        match set_time_params(
            match action_params {
                Some(p) => Some(p@),
                None => None,
            },
        ) {
            Ok(t) => r == Ok::<(i32, i32, bool), NavigateError>(t),
            Err(f) => r matches Err(NavigateError::Unsupported(m)) && m@ == set_time_fault_message(f),
        },
{
    match read_set_time_params(action_params) {
        Ok(t) => Ok(t),
        Err(e) => Err(e.into_navigate_error()),
    }
}

} // verus!
