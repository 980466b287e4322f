//! Frame-loop decisions: what the loop does once the logic and output
//! frames have both reported their state.

use vstd::prelude::*;

verus! {

/// What one frame of a subsystem reported.
#[derive(Clone, Copy, PartialEq, Eq, Structural, Debug)]
pub enum GameloopState {
    WantsToContinue,
    WantsToQuit,
    WantsToRestart,
}

/// What the whole frame loop decided: stop, or stop and start over with the
/// engine reconfigured.
#[derive(Clone, Copy, PartialEq, Eq, Structural, Debug)]
pub enum WantsTo {
    Quit,
    Restart,
}

/// Folds the logic and output frame reports into the loop's decision:
/// quitting wins over restarting, and the loop continues (`None`) only when
/// neither frame asked for either.
pub fn determine_wants_to(logic: GameloopState, output: GameloopState) -> (wants_to: Option<
    WantsTo,
>)
    ensures
        logic is WantsToQuit || output is WantsToQuit ==> wants_to == Some(WantsTo::Quit),
        !(logic is WantsToQuit) && !(output is WantsToQuit) && (logic is WantsToRestart
            || output is WantsToRestart) ==> wants_to == Some(WantsTo::Restart),
        logic is WantsToContinue && output is WantsToContinue ==> wants_to is None,
{
    let wants_to_quit = matches!(logic, GameloopState::WantsToQuit) || matches!(
        output,
        GameloopState::WantsToQuit,
    );
    let wants_to_restart = matches!(logic, GameloopState::WantsToRestart) || matches!(
        output,
        GameloopState::WantsToRestart,
    );
    if wants_to_quit {
        Some(WantsTo::Quit)
    } else if wants_to_restart {
        Some(WantsTo::Restart)
    } else {
        None
    }
}

} // verus!
