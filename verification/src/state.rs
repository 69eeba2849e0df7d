//! The top-level game state machine: main menu, the running game, and the
//! game-over screen.

use vstd::prelude::*;

verus! {

/// The process-wide application state.
#[derive(Clone, Copy, PartialEq, Eq, Structural, Debug)]
pub enum AppState {
    Mainmenu,
    Ingame,
    Gameover,
}

/// The transition rules: any press starts the game from the menu; the
/// player's death ends the run; on the game-over screen a retry edge
/// restarts and a back-to-menu edge returns to the menu, retry winning the
/// tie if both arrive in one tick.
pub open spec fn next_state_spec(
    s: AppState,
    start: bool,
    retry: bool,
    to_menu: bool,
    player_died: bool,
) -> AppState {
    match s {
        AppState::Mainmenu => if start {
            AppState::Ingame
        } else {
            AppState::Mainmenu
        },
        AppState::Ingame => if player_died {
            AppState::Gameover
        } else {
            AppState::Ingame
        },
        AppState::Gameover => if retry {
            AppState::Ingame
        } else if to_menu {
            AppState::Mainmenu
        } else {
            AppState::Gameover
        },
    }
}

/// Executable form of the transition rules.
pub fn next_state(s: AppState, start: bool, retry: bool, to_menu: bool, player_died: bool) -> (r:
    AppState)
    ensures
        r == next_state_spec(s, start, retry, to_menu, player_died),
{
    match s {
        AppState::Mainmenu => if start {
            AppState::Ingame
        } else {
            AppState::Mainmenu
        },
        AppState::Ingame => if player_died {
            AppState::Gameover
        } else {
            AppState::Ingame
        },
        AppState::Gameover => if retry {
            AppState::Ingame
        } else if to_menu {
            AppState::Mainmenu
        } else {
            AppState::Gameover
        },
    }
}

} // verus!
