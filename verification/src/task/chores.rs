//! The scripts of the common chores that walk through menus: logging out
//! and in again, and visiting the wonderland lobby. Each step repeats an
//! action until an element appears (or goes away), and says what a step that
//! never gets there means.

use vstd::prelude::*;

use crate::task::common_jobs::CommonJobError;

verus! {

/// A key a chore presses.
#[derive(Debug, Clone, Copy, PartialEq, Eq, Structural)]
pub enum ChoreKey {
    Esc,
    F6,
}

/// What a step does before each look at the screen.
#[derive(Debug, Clone, Copy)]
pub enum ChoreAction {
    /// Only wait.
    Nothing,
    /// Press a key.
    Press(ChoreKey),
    /// Click a fixed point of the screen.
    ClickAt { x: i32, y: i32 },
    /// Click the centre of the named element where it is on the screen.
    ClickElement(&'static str),
}

/// Whether a step waits for its element to appear or to go away.
#[derive(Debug, Clone, Copy, PartialEq, Eq, Structural)]
pub enum WaitFor {
    Appear,
    Disappear,
}

/// One step of a chore.
#[derive(Debug, Clone, Copy)]
pub struct ChoreStep {
    /// The element looked for.
    pub element: &'static str,
    pub wait_for: WaitFor,
    pub action: ChoreAction,
    /// How many times the action is taken and the screen looked at.
    pub times: u32,
    /// The pause between the action and the look, in milliseconds.
    pub interval_ms: u32,
    /// The element named in the error when the step never gets there;
    /// `None` where that only deserves a warning.
    pub failure: Option<&'static str>,
    /// The pause after the step, in milliseconds.
    pub pause_after_ms: u32,
}

/// A step that waits for `element` to appear.
pub open spec fn appear(
    element: &'static str,
    action: ChoreAction,
    times: u32,
    interval_ms: u32,
    failure: Option<&'static str>,
    pause_after_ms: u32,
) -> ChoreStep {
    ChoreStep { element, wait_for: WaitFor::Appear, action, times, interval_ms, failure, pause_after_ms }
}

/// A step that waits for `element` to go away.
pub open spec fn disappear(
    element: &'static str,
    action: ChoreAction,
    times: u32,
    interval_ms: u32,
    failure: Option<&'static str>,
    pause_after_ms: u32,
) -> ChoreStep {
    ChoreStep { element, wait_for: WaitFor::Disappear, action, times, interval_ms, failure, pause_after_ms }
}

/// Logging out and in again: open the menu, press the exit button, confirm
/// until the dialogue goes, wait for the launcher, enter the game until its
/// button goes, and wait for the main screen.
pub open spec fn relogin_script() -> Seq<ChoreStep> {
    seq![
        appear("MenuBag", ChoreAction::Press(ChoreKey::Esc), 10, 1200, Some("MenuBag"), 0),
        appear("AutoWoodConfirm", ChoreAction::ClickAt { x: 50, y: 1030 }, 5, 800, Some("AutoWoodConfirm"), 0),
        disappear(
            "AutoWoodConfirm",
            ChoreAction::ClickElement("AutoWoodConfirm"),
            5,
            1000,
            Some("AutoWoodConfirm"),
            1000,
        ),
        appear("EnterGame", ChoreAction::Nothing, 120, 1000, Some("EnterGame"), 0),
        disappear("EnterGame", ChoreAction::ClickAt { x: 955, y: 666 }, 120, 1000, Some("EnterGame"), 0),
        appear("PaimonMenu", ChoreAction::Nothing, 120, 1000, None, 500),
    ]
}

/// Visiting the wonderland lobby and coming back: open it, pick the first
/// entry and confirm until the dialogue goes, wait for the lobby, open the
/// menu until the way back shows, take it and confirm, and wait for the
/// main screen.
pub open spec fn wonderland_script() -> Seq<ChoreStep> {
    seq![
        appear("WonderlandClose", ChoreAction::Press(ChoreKey::F6), 10, 1000, Some("WonderlandClose"), 0),
        appear(
            "BtnBlackConfirm",
            ChoreAction::ClickAt { x: 680, y: 310 },
            5,
            800,
            Some("BtnBlackConfirm<进入>"),
            0,
        ),
        disappear(
            "BtnBlackConfirm",
            ChoreAction::ClickElement("BtnBlackConfirm"),
            5,
            1000,
            Some("BtnBlackConfirm"),
            1000,
        ),
        appear("PaimonMenu", ChoreAction::Nothing, 120, 1000, None, 500),
        appear("BtnBackTeyvat", ChoreAction::Press(ChoreKey::Esc), 20, 800, Some("BtnBackTeyvat"), 0),
        appear(
            "BtnBlackConfirm",
            ChoreAction::ClickElement("BtnBackTeyvat"),
            5,
            800,
            Some("BtnBlackConfirm(返回)"),
            0,
        ),
        disappear(
            "BtnBlackConfirm",
            ChoreAction::ClickElement("BtnBlackConfirm"),
            5,
            1000,
            Some("BtnBlackConfirm"),
            1000,
        ),
        appear("PaimonMenu", ChoreAction::Nothing, 120, 1000, None, 500),
    ]
}

fn appear_step(
    element: &'static str,
    action: ChoreAction,
    times: u32,
    interval_ms: u32,
    failure: Option<&'static str>,
    pause_after_ms: u32,
) -> (s: ChoreStep)
    ensures
        s == appear(element, action, times, interval_ms, failure, pause_after_ms),
{
    ChoreStep { element, wait_for: WaitFor::Appear, action, times, interval_ms, failure, pause_after_ms }
}

fn disappear_step(
    element: &'static str,
    action: ChoreAction,
    times: u32,
    interval_ms: u32,
    failure: Option<&'static str>,
    pause_after_ms: u32,
) -> (s: ChoreStep)
    ensures
        s == disappear(element, action, times, interval_ms, failure, pause_after_ms),
{
    ChoreStep { element, wait_for: WaitFor::Disappear, action, times, interval_ms, failure, pause_after_ms }
}

/// The steps of logging out and in again.
pub fn relogin_steps() -> (v: Vec<ChoreStep>)
    ensures
        v@ == relogin_script(),
{
    let v = vec![
        appear_step("MenuBag", ChoreAction::Press(ChoreKey::Esc), 10, 1200, Some("MenuBag"), 0),
        appear_step(
            "AutoWoodConfirm",
            ChoreAction::ClickAt { x: 50, y: 1030 },
            5,
            800,
            Some("AutoWoodConfirm"),
            0,
        ),
        disappear_step(
            "AutoWoodConfirm",
            ChoreAction::ClickElement("AutoWoodConfirm"),
            5,
            1000,
            Some("AutoWoodConfirm"),
            1000,
        ),
        appear_step("EnterGame", ChoreAction::Nothing, 120, 1000, Some("EnterGame"), 0),
        disappear_step("EnterGame", ChoreAction::ClickAt { x: 955, y: 666 }, 120, 1000, Some("EnterGame"), 0),
        appear_step("PaimonMenu", ChoreAction::Nothing, 120, 1000, None, 500),
    ];
    assert(v@ =~= relogin_script());
    v
}

/// The steps of visiting the wonderland lobby and coming back.
pub fn wonderland_steps() -> (v: Vec<ChoreStep>)
    ensures
        v@ == wonderland_script(),
{
    let v = vec![
        appear_step("WonderlandClose", ChoreAction::Press(ChoreKey::F6), 10, 1000, Some("WonderlandClose"), 0),
        appear_step(
            "BtnBlackConfirm",
            ChoreAction::ClickAt { x: 680, y: 310 },
            5,
            800,
            Some("BtnBlackConfirm<进入>"),
            0,
        ),
        disappear_step(
            "BtnBlackConfirm",
            ChoreAction::ClickElement("BtnBlackConfirm"),
            5,
            1000,
            Some("BtnBlackConfirm"),
            1000,
        ),
        appear_step("PaimonMenu", ChoreAction::Nothing, 120, 1000, None, 500),
        appear_step("BtnBackTeyvat", ChoreAction::Press(ChoreKey::Esc), 20, 800, Some("BtnBackTeyvat"), 0),
        appear_step(
            "BtnBlackConfirm",
            ChoreAction::ClickElement("BtnBackTeyvat"),
            5,
            800,
            Some("BtnBlackConfirm(返回)"),
            0,
        ),
        disappear_step(
            "BtnBlackConfirm",
            ChoreAction::ClickElement("BtnBlackConfirm"),
            5,
            1000,
            Some("BtnBlackConfirm"),
            1000,
        ),
        appear_step("PaimonMenu", ChoreAction::Nothing, 120, 1000, None, 500),
    ];
    assert(v@ =~= wonderland_script());
    v
}

/// What a step that ended means: nothing where it got there or only
/// deserves a warning, otherwise the timeout error naming its element.
pub open spec fn step_failure(step: ChoreStep, reached: bool) -> Option<CommonJobError> {
    if reached {
        None
    } else {
        match step.failure {
            None => None,
            Some(label) => Some(
                match step.wait_for {
                    WaitFor::Appear => CommonJobError::ElementAppearTimeout(label),
                    WaitFor::Disappear => CommonJobError::ElementDisappearTimeout(label),
                },
            ),
        }
    }
}

/// Whether a look at the screen that did (`seen`) or did not see the step's
/// element reaches what the step waits for.
pub open spec fn look_reaches(step: ChoreStep, seen: bool) -> bool {
    match step.wait_for {
        WaitFor::Appear => seen,
        WaitFor::Disappear => !seen,
    }
}

/// What follows a look at the screen during a step.
#[derive(Debug, Clone, Copy, PartialEq, Eq, Structural)]
pub enum ChoreLook {
    /// The step reached its element: finish it as reached.
    Reached,
    /// Take the action and look again.
    TryAgain,
    /// The step ran out of tries: finish it as not reached.
    OutOfTries,
}

/// What follows look number `tries` (counting from one) of `step`, which
/// saw its element or not: the step is reached when the look shows what it
/// waits for, and otherwise tries again while it has tries left.
pub fn after_look(step: &ChoreStep, tries: u32, seen: bool) -> (r: ChoreLook)
    ensures
        r == if look_reaches(*step, seen) {
            ChoreLook::Reached
        } else if tries < step.times {
            ChoreLook::TryAgain
        } else {
            ChoreLook::OutOfTries
        },
{
    let reached = match step.wait_for {
        WaitFor::Appear => seen,
        WaitFor::Disappear => !seen,
    };
    if reached {
        ChoreLook::Reached
    } else if tries < step.times {
        ChoreLook::TryAgain
    } else {
        ChoreLook::OutOfTries
    }
}

/// The result of a step that ended, having reached its element or not.
pub fn finish_step(step: &ChoreStep, reached: bool) -> (r: Result<(), CommonJobError>)
    ensures
        match r {
            Ok(()) => step_failure(*step, reached) is None,
            Err(e) => step_failure(*step, reached) == Some(e),
        },
{
    if reached {
        return Ok(());
    }
    match step.failure {
        None => Ok(()),
        Some(label) => match step.wait_for {
            WaitFor::Appear => Err(CommonJobError::ElementAppearTimeout(label)),
            WaitFor::Disappear => Err(CommonJobError::ElementDisappearTimeout(label)),
        },
    }
}

} // verus!
