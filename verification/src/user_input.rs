//! Mapping of already-decoded key presses to turn outcomes.  Reading the
//! keyboard belongs to an outside collaborator; this module only decides.

use vstd::prelude::*;

verus! {

/// A key press, reduced to what the turn logic cares about.
#[derive(Clone, Copy, Debug, PartialEq, Eq, Structural)]
pub enum InputKey {
    Up,
    Down,
    Left,
    Right,
    Escape,
    ToggleFullscreen,
    Other,
}

/// What one key press did to the turn.
#[derive(Clone, Copy, Debug, PartialEq, Eq, Structural)]
pub enum PlayerAction {
    TookTurn,
    DidntTakeTurn,
    Exit,
}

/// The movement intent of a directional key, if it has one.
pub open spec fn spec_key_direction(key: InputKey) -> Option<(i32, i32)> {
    match key {
        InputKey::Up => Some((0i32, -1i32)),
        InputKey::Down => Some((0i32, 1i32)),
        InputKey::Left => Some((-1i32, 0i32)),
        InputKey::Right => Some((1i32, 0i32)),
        _ => None,
    }
}

/// Decide one key press: a directional key while the player is alive takes
/// the turn and yields its movement intent; escape ends the session; every
/// other press, and any press while the player is dead, does nothing.
pub fn handle_keys(key: InputKey, player_alive: bool) -> (r: (PlayerAction, Option<(i32, i32)>))
    ensures
        key == InputKey::Escape ==> r == (PlayerAction::Exit, Option::<(i32, i32)>::None),
        key != InputKey::Escape && player_alive && spec_key_direction(key) is Some ==> r == (
            PlayerAction::TookTurn,
            spec_key_direction(key),
        ),
        key != InputKey::Escape && !(player_alive && spec_key_direction(key) is Some) ==> r == (
            PlayerAction::DidntTakeTurn,
            Option::<(i32, i32)>::None,
        ),
{
    match key {
        InputKey::Escape => (PlayerAction::Exit, None),
        InputKey::Up => {
            if player_alive {
                (PlayerAction::TookTurn, Some((0, -1)))
            } else {
                (PlayerAction::DidntTakeTurn, None)
            }
        },
        InputKey::Down => {
            if player_alive {
                (PlayerAction::TookTurn, Some((0, 1)))
            } else {
                (PlayerAction::DidntTakeTurn, None)
            }
        },
        InputKey::Left => {
            if player_alive {
                (PlayerAction::TookTurn, Some((-1, 0)))
            } else {
                (PlayerAction::DidntTakeTurn, None)
            }
        },
        InputKey::Right => {
            if player_alive {
                (PlayerAction::TookTurn, Some((1, 0)))
            } else {
                (PlayerAction::DidntTakeTurn, None)
            }
        },
        _ => (PlayerAction::DidntTakeTurn, None),
    }
}

} // verus!
