//! The keys that move the paddles, and the keyboard state they are read from.
use vstd::prelude::*;
use bevy_input::Input;
use bevy_input::keyboard::KeyCode;
use crate::Player;

verus! {

/// Key codes as the input layer names them.
#[verifier::external_type_specification]
#[verifier::external_body]
pub struct ExKeyCode(KeyCode);

/// The input layer's record of which inputs are held down.
#[verifier::external_type_specification]
#[verifier::external_body]
#[verifier::reject_recursive_types(T)]
pub struct ExInput<T>(Input<T>);

/// The four keys the game listens to.
#[derive(Clone, Copy, Debug, PartialEq, Eq, Structural)]
pub enum Key {
    W,
    S,
    Up,
    Down,
}

/// Those of the game's keys that `keyboard_input` holds as pressed.
pub uninterp spec fn held_keys(keyboard_input: Input<KeyCode>) -> Set<Key>;

/// Asks the keyboard state whether `key` is held down.
///
/// Calls `Input::pressed` with the key code of the same name. That method
/// looks the code up in the set of pressed inputs and changes nothing, so the
/// answer is membership in [`held_keys`]; which keys that set holds is not
/// stated.
#[verifier::external_body]
pub(crate) fn pressed(keyboard_input: &Input<KeyCode>, key: Key) -> (held: bool)
    ensures
        held == held_keys(*keyboard_input).contains(key),
{
    keyboard_input.pressed(
        match key {
            Key::W => KeyCode::W,
            Key::S => KeyCode::S,
            Key::Up => KeyCode::Up,
            Key::Down => KeyCode::Down,
        },
    )
}

impl Player {
    /// The keys that move this player's paddle.
    pub open spec fn spec_movement_keys(&self) -> (Key, Key) {
        match self {
            Player::Left => (Key::W, Key::S),
            Player::Right => (Key::Up, Key::Down),
        }
    }

    /// The keys that move this player's paddle: first the one for up, then
    /// the one for down.
    #[verifier::when_used_as_spec(spec_movement_keys)]
    pub fn movement_keys(&self) -> (keys: (Key, Key))
        ensures
            keys == self.movement_keys(),
    {
        match self {
            Player::Left => (Key::W, Key::S),
            Player::Right => (Key::Up, Key::Down),
        }
    }
}

} // verus!
