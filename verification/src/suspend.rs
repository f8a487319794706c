//! The order of the terminal operations around an interactive command run
//! with the UI suspended: leave the alternate screen, disable raw mode, run
//! the command, re-enable raw mode, re-enter the alternate screen.
//!
//! A failed terminal operation ends the sequence with its error; the
//! command's own outcome never does, so the terminal is restored whether or
//! not the command ran.

use vstd::prelude::*;

verus! {

/// One operation of the suspend sequence.
#[derive(Debug, Clone, Copy, PartialEq, Eq, Structural)]
pub enum SuspendStep {
    LeaveAlternateScreen,
    DisableRawMode,
    RunCommand,
    EnableRawMode,
    EnterAlternateScreen,
}

/// The operation that follows `done` (`None` before the first one), given
/// whether `done` succeeded; `None` ends the sequence.
pub open spec fn following_step(done: Option<SuspendStep>, ok: bool) -> Option<SuspendStep> {
    match done {
        None => Some(SuspendStep::LeaveAlternateScreen),
        Some(SuspendStep::LeaveAlternateScreen) => if ok {
            Some(SuspendStep::DisableRawMode)
        } else {
            None
        },
        Some(SuspendStep::DisableRawMode) => if ok {
            Some(SuspendStep::RunCommand)
        } else {
            None
        },
        Some(SuspendStep::RunCommand) => Some(SuspendStep::EnableRawMode),
        Some(SuspendStep::EnableRawMode) => if ok {
            Some(SuspendStep::EnterAlternateScreen)
        } else {
            None
        },
        Some(SuspendStep::EnterAlternateScreen) => None,
    }
}

/// The next operation of the suspend sequence after `done` ended with `ok`.
pub fn next_suspend_step(done: Option<SuspendStep>, ok: bool) -> (r: Option<SuspendStep>)
    ensures
        r == following_step(done, ok),
{
    match done {
        None => Some(SuspendStep::LeaveAlternateScreen),
        Some(SuspendStep::LeaveAlternateScreen) => if ok {
            Some(SuspendStep::DisableRawMode)
        } else {
            None
        },
        Some(SuspendStep::DisableRawMode) => if ok {
            Some(SuspendStep::RunCommand)
        } else {
            None
        },
        Some(SuspendStep::RunCommand) => Some(SuspendStep::EnableRawMode),
        Some(SuspendStep::EnableRawMode) => if ok {
            Some(SuspendStep::EnterAlternateScreen)
        } else {
            None
        },
        Some(SuspendStep::EnterAlternateScreen) => None,
    }
}

/// The operations performed when the `i`-th operation ends with
/// `outcomes[i]` (an operation past the end of `outcomes` succeeds), starting
/// after `done`.
pub open spec fn steps_from(done: Option<SuspendStep>, ok: bool, outcomes: Seq<bool>) -> Seq<
    SuspendStep,
>
    decreases outcomes.len(), step_rank(done),
{
    match following_step(done, ok) {
        None => Seq::empty(),
        Some(s) => if outcomes.len() == 0 {
            seq![s].add(steps_from(Some(s), true, outcomes))
        } else {
            seq![s].add(steps_from(Some(s), outcomes[0], outcomes.drop_first()))
        },
    }
}

/// How many operations can still follow `done`.
pub open spec fn step_rank(done: Option<SuspendStep>) -> nat {
    match done {
        None => 5,
        Some(SuspendStep::LeaveAlternateScreen) => 4,
        Some(SuspendStep::DisableRawMode) => 3,
        Some(SuspendStep::RunCommand) => 2,
        Some(SuspendStep::EnableRawMode) => 1,
        Some(SuspendStep::EnterAlternateScreen) => 0,
    }
}

/// The whole suspend sequence when the operations end with `outcomes` in
/// turn.
pub open spec fn suspend_sequence(outcomes: Seq<bool>) -> Seq<SuspendStep> {
    steps_from(None, true, outcomes)
}

} // verus!
