//! Waypoint types, movement modes and action codes of a route file.

use vstd::prelude::*;

use crate::text::str_eq;

verus! {

broadcast use vstd::string::group_string_axioms;

/// The `type` of a waypoint.
#[derive(Debug, Clone, Copy, PartialEq, Eq, Hash, Structural)]
pub enum WaypointType {
    Orientation,
    Path,
    Target,
    Teleport,
    /// A code this library does not know; kept so newer files still load.
    Unknown,
}

/// The code a waypoint type is written with in a route file.
pub open spec fn waypoint_type_code(t: WaypointType) -> Seq<char> {
    match t {
        WaypointType::Orientation => "orientation"@,
        WaypointType::Path => "path"@,
        WaypointType::Target => "target"@,
        WaypointType::Teleport => "teleport"@,
        WaypointType::Unknown => ""@,
    }
}

/// The waypoint type a code stands for.
pub open spec fn waypoint_type_of_code(code: Seq<char>) -> WaypointType {
    if code == "orientation"@ {
        WaypointType::Orientation
    } else if code == "path"@ {
        WaypointType::Path
    } else if code == "target"@ {
        WaypointType::Target
    } else if code == "teleport"@ {
        WaypointType::Teleport
    } else {
        WaypointType::Unknown
    }
}

impl WaypointType {
    pub fn from_code(code: &str) -> (t: Self)
        ensures
            t == waypoint_type_of_code(code@),
    {
        if str_eq(code, "orientation") {
            WaypointType::Orientation
        } else if str_eq(code, "path") {
            WaypointType::Path
        } else if str_eq(code, "target") {
            WaypointType::Target
        } else if str_eq(code, "teleport") {
            WaypointType::Teleport
        } else {
            WaypointType::Unknown
        }
    }

    pub fn code(self) -> (s: &'static str)
        ensures
            s@ == waypoint_type_code(self),
    {
        match self {
            WaypointType::Orientation => "orientation",
            WaypointType::Path => "path",
            WaypointType::Target => "target",
            WaypointType::Teleport => "teleport",
            WaypointType::Unknown => "",
        }
    }
}

/// Reading back the code of any waypoint type gives that type again.
pub proof fn lemma_waypoint_type_code_round_trip(t: WaypointType)
    ensures
        waypoint_type_of_code(waypoint_type_code(t)) == t,
{
    reveal_strlit("orientation");
    reveal_strlit("path");
    reveal_strlit("target");
    reveal_strlit("teleport");
    reveal_strlit("");
    assert("orientation"@.len() == 11);
    assert("path"@.len() == 4);
    assert("target"@.len() == 6);
    assert("teleport"@.len() == 8);
    assert(""@.len() == 0);
}

/// How the character moves towards a waypoint (`move_mode`).
#[derive(Debug, Clone, Copy, PartialEq, Eq, Hash, Structural)]
pub enum MoveMode {
    Climb,
    Dash,
    Fly,
    Jump,
    Run,
    Swim,
    Walk,
    /// A code this library does not know; kept so newer files still load.
    Unknown,
}

/// The code a movement mode is written with in a route file.
pub open spec fn move_mode_code(m: MoveMode) -> Seq<char> {
    match m {
        MoveMode::Climb => "climb"@,
        MoveMode::Dash => "dash"@,
        MoveMode::Fly => "fly"@,
        MoveMode::Jump => "jump"@,
        MoveMode::Run => "run"@,
        MoveMode::Swim => "swim"@,
        MoveMode::Walk => "walk"@,
        MoveMode::Unknown => ""@,
    }
}

/// The movement mode a code stands for.
pub open spec fn move_mode_of_code(code: Seq<char>) -> MoveMode {
    if code == "climb"@ {
        MoveMode::Climb
    } else if code == "dash"@ {
        MoveMode::Dash
    } else if code == "fly"@ {
        MoveMode::Fly
    } else if code == "jump"@ {
        MoveMode::Jump
    } else if code == "run"@ {
        MoveMode::Run
    } else if code == "swim"@ {
        MoveMode::Swim
    } else if code == "walk"@ {
        MoveMode::Walk
    } else {
        MoveMode::Unknown
    }
}

impl MoveMode {
    pub fn from_code(code: &str) -> (m: Self)
        ensures
            m == move_mode_of_code(code@),
    {
        if str_eq(code, "climb") {
            MoveMode::Climb
        } else if str_eq(code, "dash") {
            MoveMode::Dash
        } else if str_eq(code, "fly") {
            MoveMode::Fly
        } else if str_eq(code, "jump") {
            MoveMode::Jump
        } else if str_eq(code, "run") {
            MoveMode::Run
        } else if str_eq(code, "swim") {
            MoveMode::Swim
        } else if str_eq(code, "walk") {
            MoveMode::Walk
        } else {
            MoveMode::Unknown
        }
    }

    pub fn code(self) -> (s: &'static str)
        ensures
            s@ == move_mode_code(self),
    {
        match self {
            MoveMode::Climb => "climb",
            MoveMode::Dash => "dash",
            MoveMode::Fly => "fly",
            MoveMode::Jump => "jump",
            MoveMode::Run => "run",
            MoveMode::Swim => "swim",
            MoveMode::Walk => "walk",
            MoveMode::Unknown => "",
        }
    }
}

/// Reading back the code of any movement mode gives that mode again.
pub proof fn lemma_move_mode_code_round_trip(m: MoveMode)
    ensures
        move_mode_of_code(move_mode_code(m)) == m,
{
    reveal_strlit("climb");
    reveal_strlit("dash");
    reveal_strlit("fly");
    reveal_strlit("jump");
    reveal_strlit("run");
    reveal_strlit("swim");
    reveal_strlit("walk");
    reveal_strlit("");
    assert("climb"@.len() == 5);
    assert("dash"@.len() == 4);
    assert("fly"@.len() == 3);
    assert("jump"@.len() == 4);
    assert("run"@.len() == 3);
    assert("swim"@.len() == 4);
    assert("walk"@.len() == 4);
    assert(""@.len() == 0);
    assert("dash"@[0] == 'd' && "jump"@[0] == 'j' && "swim"@[0] == 's' && "walk"@[0] == 'w');
    assert("fly"@[0] == 'f' && "run"@[0] == 'r');
}

/// The action a waypoint asks for (`action`).
#[derive(Debug, Clone, PartialEq, Eq, Hash)]
pub enum ActionCode {
    /// No action.
    NoAction,
    /// Plunging attack that ends a glide.
    StopFlying,
    /// Teleport regardless of the waypoint type.
    ForceTp,
    /// Collect with a held elemental skill.
    NahidaCollect,
    /// Try to pick items up around the character.
    PickAround,
    /// Fight with a combat script runner.
    Fight,
    /// A single normal attack.
    NormalAttack,
    /// A single elemental skill.
    ElementalSkill,
    /// Sweep the view up and down until a leaf is seen, then grab it.
    UpDownGrabLeaf,
    /// Collect with a hydro character.
    HydroCollect,
    /// Collect with an electro character.
    ElectroCollect,
    /// Collect with an anemo character.
    AnemoCollect,
    /// Collect with a pyro character.
    PyroCollect,
    /// Run an inline combat script.
    CombatScript,
    /// Mine a deposit.
    Mining,
    /// Mine with a dedicated character.
    LinneaMining,
    /// Write the parameters to the log.
    LogOutput,
    /// Run the fishing task.
    Fishing,
    /// Leave the game and log in again.
    ExitAndRelogin,
    /// Enter the wonderland lobby and come back.
    EnterAndExitWonderland,
    /// Set the in-game time.
    SetTime,
    /// Use the equipped gadget.
    UseGadget,
    /// Gather nearby materials.
    PickUpCollect,
    /// A code this library does not know, kept as written.
    Other(String),
}

/// The text an action code is written with in a route file.
pub open spec fn action_code_text(a: ActionCode) -> Seq<char> {
    match a {
        ActionCode::NoAction => ""@,
        ActionCode::StopFlying => "stop_flying"@,
        ActionCode::ForceTp => "force_tp"@,
        ActionCode::NahidaCollect => "nahida_collect"@,
        ActionCode::PickAround => "pick_around"@,
        ActionCode::Fight => "fight"@,
        ActionCode::NormalAttack => "normal_attack"@,
        ActionCode::ElementalSkill => "elemental_skill"@,
        ActionCode::UpDownGrabLeaf => "up_down_grab_leaf"@,
        ActionCode::HydroCollect => "hydro_collect"@,
        ActionCode::ElectroCollect => "electro_collect"@,
        ActionCode::AnemoCollect => "anemo_collect"@,
        ActionCode::PyroCollect => "pyro_collect"@,
        ActionCode::CombatScript => "combat_script"@,
        ActionCode::Mining => "mining"@,
        ActionCode::LinneaMining => "linnea_mining"@,
        ActionCode::LogOutput => "log_output"@,
        ActionCode::Fishing => "fishing"@,
        ActionCode::ExitAndRelogin => "exit_and_relogin"@,
        ActionCode::EnterAndExitWonderland => "wonderland_cycle"@,
        ActionCode::SetTime => "set_time"@,
        ActionCode::UseGadget => "use_gadget"@,
        ActionCode::PickUpCollect => "pick_up_collect"@,
        ActionCode::Other(s) => s@,
    }
}

/// Whether `code` is the text of one of the actions this library knows.
pub open spec fn is_known_action_code(code: Seq<char>) -> bool {
    code == ""@
        || code == "stop_flying"@
        || code == "force_tp"@
        || code == "nahida_collect"@
        || code == "pick_around"@
        || code == "fight"@
        || code == "normal_attack"@
        || code == "elemental_skill"@
        || code == "up_down_grab_leaf"@
        || code == "hydro_collect"@
        || code == "electro_collect"@
        || code == "anemo_collect"@
        || code == "pyro_collect"@
        || code == "combat_script"@
        || code == "mining"@
        || code == "linnea_mining"@
        || code == "log_output"@
        || code == "fishing"@
        || code == "exit_and_relogin"@
        || code == "wonderland_cycle"@
        || code == "set_time"@
        || code == "use_gadget"@
        || code == "pick_up_collect"@
}

impl ActionCode {
    /// The action that an optional code stands for; a missing code means no action.
    pub fn from_optional(s: Option<&str>) -> (a: Self)
        ensures
            match s {
                None => a is NoAction,
                Some(c) => action_code_text(a) == c@ && (a is Other <==> !is_known_action_code(c@)),
            },
    {
        match s {
            None => ActionCode::NoAction,
            Some(c) => {
                if str_eq(c, "") {
                    ActionCode::NoAction
                } else {
                    ActionCode::from_code(c)
                }
            },
        }
    }

    /// The action that `code` stands for; an unknown code is kept as `Other`.
    pub fn from_code(code: &str) -> (a: Self)
        ensures
            action_code_text(a) == code@,
            a is Other <==> !is_known_action_code(code@),
    {
        if str_eq(code, "") {
            ActionCode::NoAction
        } else if str_eq(code, "stop_flying") {
            ActionCode::StopFlying
        } else if str_eq(code, "force_tp") {
            ActionCode::ForceTp
        } else if str_eq(code, "nahida_collect") {
            ActionCode::NahidaCollect
        } else if str_eq(code, "pick_around") {
            ActionCode::PickAround
        } else if str_eq(code, "fight") {
            ActionCode::Fight
        } else if str_eq(code, "normal_attack") {
            ActionCode::NormalAttack
        } else if str_eq(code, "elemental_skill") {
            ActionCode::ElementalSkill
        } else if str_eq(code, "up_down_grab_leaf") {
            ActionCode::UpDownGrabLeaf
        } else if str_eq(code, "hydro_collect") {
            ActionCode::HydroCollect
        } else if str_eq(code, "electro_collect") {
            ActionCode::ElectroCollect
        } else if str_eq(code, "anemo_collect") {
            ActionCode::AnemoCollect
        } else if str_eq(code, "pyro_collect") {
            ActionCode::PyroCollect
        } else if str_eq(code, "combat_script") {
            ActionCode::CombatScript
        } else if str_eq(code, "mining") {
            ActionCode::Mining
        } else if str_eq(code, "linnea_mining") {
            ActionCode::LinneaMining
        } else if str_eq(code, "log_output") {
            ActionCode::LogOutput
        } else if str_eq(code, "fishing") {
            ActionCode::Fishing
        } else if str_eq(code, "exit_and_relogin") {
            ActionCode::ExitAndRelogin
        } else if str_eq(code, "wonderland_cycle") {
            ActionCode::EnterAndExitWonderland
        } else if str_eq(code, "set_time") {
            ActionCode::SetTime
        } else if str_eq(code, "use_gadget") {
            ActionCode::UseGadget
        } else if str_eq(code, "pick_up_collect") {
            ActionCode::PickUpCollect
        } else {
            let s = code.to_string();
            ActionCode::Other(s)
        }
    }

    /// The waypoint type this action imposes on its waypoint, if any.
    pub fn enforces_waypoint_type(&self) -> (t: Option<WaypointType>)
        ensures
            t == match self {
                ActionCode::Fight => Some(WaypointType::Path),
                ActionCode::HydroCollect | ActionCode::ElectroCollect | ActionCode::AnemoCollect
                | ActionCode::PyroCollect => Some(WaypointType::Target),
                _ => Option::<WaypointType>::None,
            },
    {
        match self {
            ActionCode::Fight => Some(WaypointType::Path),
            ActionCode::HydroCollect | ActionCode::ElectroCollect | ActionCode::AnemoCollect
            | ActionCode::PyroCollect => Some(WaypointType::Target),
            _ => None,
        }
    }

    /// The key under which the handler of this action is registered; no action has none.
    pub fn handler_key(&self) -> (k: Option<&str>)
        ensures
            match k {
                Some(key) => !(self is NoAction) && key@ == action_code_text(*self),
                None => self is NoAction,
            },
    {
        match self {
            ActionCode::NoAction => None,
            ActionCode::StopFlying => Some("stop_flying"),
            ActionCode::ForceTp => Some("force_tp"),
            ActionCode::NahidaCollect => Some("nahida_collect"),
            ActionCode::PickAround => Some("pick_around"),
            ActionCode::Fight => Some("fight"),
            ActionCode::NormalAttack => Some("normal_attack"),
            ActionCode::ElementalSkill => Some("elemental_skill"),
            ActionCode::UpDownGrabLeaf => Some("up_down_grab_leaf"),
            ActionCode::HydroCollect => Some("hydro_collect"),
            ActionCode::ElectroCollect => Some("electro_collect"),
            ActionCode::AnemoCollect => Some("anemo_collect"),
            ActionCode::PyroCollect => Some("pyro_collect"),
            ActionCode::CombatScript => Some("combat_script"),
            ActionCode::Mining => Some("mining"),
            ActionCode::LinneaMining => Some("linnea_mining"),
            ActionCode::LogOutput => Some("log_output"),
            ActionCode::Fishing => Some("fishing"),
            ActionCode::ExitAndRelogin => Some("exit_and_relogin"),
            ActionCode::EnterAndExitWonderland => Some("wonderland_cycle"),
            ActionCode::SetTime => Some("set_time"),
            ActionCode::UseGadget => Some("use_gadget"),
            ActionCode::PickUpCollect => Some("pick_up_collect"),
            ActionCode::Other(s) => Some(s.as_str()),
        }
    }
}

/// Two known actions with the same text are the same action, so the text of
/// a known action reads back as that action.
pub proof fn lemma_action_code_text_injective(a: ActionCode, b: ActionCode)
    requires
        !(a is Other),
        !(b is Other),
        action_code_text(a) == action_code_text(b),
    ensures
        a == b,
{
    reveal_strlit("");
    reveal_strlit("stop_flying");
    reveal_strlit("force_tp");
    reveal_strlit("nahida_collect");
    reveal_strlit("pick_around");
    reveal_strlit("fight");
    reveal_strlit("normal_attack");
    reveal_strlit("elemental_skill");
    reveal_strlit("up_down_grab_leaf");
    reveal_strlit("hydro_collect");
    reveal_strlit("electro_collect");
    reveal_strlit("anemo_collect");
    reveal_strlit("pyro_collect");
    reveal_strlit("combat_script");
    reveal_strlit("mining");
    reveal_strlit("linnea_mining");
    reveal_strlit("log_output");
    reveal_strlit("fishing");
    reveal_strlit("exit_and_relogin");
    reveal_strlit("wonderland_cycle");
    reveal_strlit("set_time");
    reveal_strlit("use_gadget");
    reveal_strlit("pick_up_collect");
    assert(""@.len() == 0);
    assert("stop_flying"@.len() == 11 && "stop_flying"@[0] == 's');
    assert("force_tp"@.len() == 8 && "force_tp"@[0] == 'f');
    assert("nahida_collect"@.len() == 14 && "nahida_collect"@[0] == 'n');
    assert("pick_around"@.len() == 11 && "pick_around"@[0] == 'p');
    assert("fight"@.len() == 5 && "fight"@[0] == 'f');
    assert("normal_attack"@.len() == 13 && "normal_attack"@[0] == 'n');
    assert("elemental_skill"@.len() == 15 && "elemental_skill"@[0] == 'e' && "elemental_skill"@[3] == 'm');
    assert("up_down_grab_leaf"@.len() == 17 && "up_down_grab_leaf"@[0] == 'u');
    assert("hydro_collect"@.len() == 13 && "hydro_collect"@[0] == 'h');
    assert("electro_collect"@.len() == 15 && "electro_collect"@[0] == 'e' && "electro_collect"@[3] == 'c');
    assert("anemo_collect"@.len() == 13 && "anemo_collect"@[0] == 'a');
    assert("pyro_collect"@.len() == 12 && "pyro_collect"@[0] == 'p');
    assert("combat_script"@.len() == 13 && "combat_script"@[0] == 'c');
    assert("mining"@.len() == 6 && "mining"@[0] == 'm');
    assert("linnea_mining"@.len() == 13 && "linnea_mining"@[0] == 'l');
    assert("log_output"@.len() == 10 && "log_output"@[0] == 'l');
    assert("fishing"@.len() == 7 && "fishing"@[0] == 'f');
    assert("exit_and_relogin"@.len() == 16 && "exit_and_relogin"@[0] == 'e');
    assert("wonderland_cycle"@.len() == 16 && "wonderland_cycle"@[0] == 'w');
    assert("set_time"@.len() == 8 && "set_time"@[0] == 's');
    assert("use_gadget"@.len() == 10 && "use_gadget"@[0] == 'u');
    assert("pick_up_collect"@.len() == 15 && "pick_up_collect"@[0] == 'p');
}

/// Every known action text is the text of exactly the action read from it.
pub proof fn lemma_known_action_codes_are_texts(a: ActionCode)
    requires
        !(a is Other),
    ensures
        is_known_action_code(action_code_text(a)),
{
}

} // verus!
