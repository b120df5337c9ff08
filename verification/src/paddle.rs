//! The paddles: where they stand, and how the players move them.
use vstd::prelude::*;
use bevy_input::Input;
use bevy_input::keyboard::KeyCode;
use crate::{Collider, Player};
use crate::input::{held_keys, pressed, Key};
use crate::math::{displacement, travel, Sprite, Transform, Vec2, UNIT};
use crate::window::{Reset, Window};

verus! {

/// A paddle. Its speed, in length units per second, follows the surface.
#[derive(Clone, Copy, Debug, PartialEq, Eq, Structural)]
pub struct Paddle {
    pub speed: u32,
}

impl Default for Paddle {
    fn default() -> (paddle: Paddle)
        ensures
            paddle.speed == 0,
    {
        Paddle { speed: 0 }
    }
}

impl Paddle {
    /// Width of a paddle: twenty pixels.
    pub const WIDTH: i64 = 20 * UNIT;

    /// Distance between a paddle's center and its side's edge of the
    /// surface: fifty pixels.
    pub const MARGIN: i64 = 50 * UNIT;

    /// Speed, size and place of `player`'s paddle on the given surface.
    pub fn layout(player: Player, window: Window) -> (placed: (Sprite, Transform, Paddle))
        ensures
            placed == paddle_layout(player, window),
    {
        let x_translation: i64 = match player {
            Player::Left => Paddle::MARGIN - (window.width / 2) as i64,
            Player::Right => (window.width / 2) as i64 - Paddle::MARGIN,
        };
        (
            Sprite { size: Vec2 { x: Paddle::WIDTH, y: (window.height / 5) as i64 } },
            Transform { translation: Vec2 { x: x_translation, y: 0 } },
            Paddle { speed: window.height / 3 },
        )
    }
}

/// Speed, size and place of a paddle on the given surface.
///
/// A paddle covers a third of the surface height per second. It is
/// [`Paddle::WIDTH`] wide and a fifth of the surface high. Its center lies
/// [`Paddle::MARGIN`] inside the left edge of the surface for `Left`, inside
/// the right edge for `Right`, at half height.
pub open spec fn paddle_layout(player: Player, window: Window) -> (Sprite, Transform, Paddle) {
    let x_translation = match player {
        Player::Left => Paddle::MARGIN - window.width / 2,
        Player::Right => window.width / 2 - Paddle::MARGIN,
    };
    (
        Sprite { size: Vec2 { x: Paddle::WIDTH, y: (window.height / 5) as i64 } },
        Transform { translation: Vec2 { x: x_translation as i64, y: 0 } },
        Paddle { speed: window.height / 3 },
    )
}

/// A paddle entity after a layout reset: laid out for the surface, side kept.
pub open spec fn paddle_after_reset(
    paddle: (Sprite, Transform, Paddle, Player),
    window: Window,
) -> (Sprite, Transform, Paddle, Player) {
    let placed = paddle_layout(paddle.3, window);
    (placed.0, placed.1, placed.2, paddle.3)
}

/// A paddle that was not laid out yet: at rest, no extent, at the center, a
/// collider.
pub open spec fn spawn_paddle_spec(player: Player) -> (
    Sprite,
    Transform,
    Paddle,
    Player,
    Collider,
) {
    (
        Sprite { size: Vec2::zero() },
        Transform { translation: Vec2::zero() },
        Paddle { speed: 0 },
        player,
        Collider,
    )
}

fn spawn_paddle(player: Player) -> (entity: (Sprite, Transform, Paddle, Player, Collider))
    ensures
        entity == spawn_paddle_spec(player),
{
    (Sprite::default(), Transform::default(), Paddle::default(), player, Collider)
}

/// The two paddles of a new game, one for each side, not yet laid out.
pub fn spawn_paddles() -> (paddles: Vec<(Sprite, Transform, Paddle, Player, Collider)>)
    ensures
        paddles@.len() == 2,
        paddles@[0] == spawn_paddle_spec(Player::Left),
        paddles@[1] == spawn_paddle_spec(Player::Right),
{
    let mut paddles: Vec<(Sprite, Transform, Paddle, Player, Collider)> = Vec::new();
    paddles.push(spawn_paddle(Player::Left));
    paddles.push(spawn_paddle(Player::Right));
    paddles
}

/// Lays every paddle out for the current surface, if a reset was raised this
/// frame. However many resets were raised, each paddle is laid out once.
pub fn paddle_reset_system(
    resets: &Vec<Reset>,
    primary_window: Option<Window>,
    paddles: &mut Vec<(Sprite, Transform, Paddle, Player)>,
)
    requires
        resets@.len() > 0 ==> primary_window is Some,
    ensures
        final(paddles)@.len() == old(paddles)@.len(),
        resets@.len() == 0 ==> final(paddles)@ == old(paddles)@,
        resets@.len() > 0 ==> forall|i: int|
            #![trigger final(paddles)@[i]]
            0 <= i < old(paddles)@.len() ==> final(paddles)@[i] == paddle_after_reset(
                old(paddles)@[i],
                primary_window->0,
            ),
{
    if resets.len() == 0 {
        return ;
    }
    let window: Window = primary_window.unwrap();
    let ghost before_all = paddles@;
    let mut i: usize = 0;
    while i < paddles.len()
        invariant
            i <= paddles@.len(),
            paddles@.len() == before_all.len(),
            forall|k: int|
                #![trigger paddles@[k]]
                i <= k < paddles@.len() ==> paddles@[k] == before_all[k],
            forall|k: int|
                #![trigger paddles@[k]]
                0 <= k < i ==> paddles@[k] == paddle_after_reset(before_all[k], window),
        decreases paddles@.len() - i,
    {
        let (_sprite, _transform, _paddle, player): (Sprite, Transform, Paddle, Player) =
            paddles[i];
        let (sprite, transform, paddle): (Sprite, Transform, Paddle) = Paddle::layout(
            player,
            window,
        );
        paddles.set(i, (sprite, transform, paddle, player));
        i += 1;
    }
}

/// The height of a paddle's center after `micros` microseconds in which its
/// keys were held as given: up by what its speed covers if the up key was
/// held, down by as much if the down key was held, and where it was if both
/// were or neither was.
pub open spec fn paddle_moved(y: int, speed: int, up: bool, down: bool, micros: int) -> int {
    y + (if up {
        displacement(speed, micros)
    } else {
        0
    }) - (if down {
        displacement(speed, micros)
    } else {
        0
    })
}

/// A paddle entity after a frame of `micros` microseconds under the given
/// held keys.
pub open spec fn paddle_after_movement(
    paddle: (Paddle, Player, Transform),
    held: Set<Key>,
    micros: u64,
) -> (Paddle, Player, Transform) {
    let (up_key, down_key) = paddle.1.movement_keys();
    let y = paddle_moved(
        paddle.2.translation.y as int,
        paddle.0.speed as int,
        held.contains(up_key),
        held.contains(down_key),
        micros as int,
    );
    (
        paddle.0,
        paddle.1,
        Transform { translation: Vec2 { x: paddle.2.translation.x, y: y as i64 } },
    )
}

/// Whether the paddle's center still has a height that fits its type after
/// the frame.
pub open spec fn paddle_can_move(
    paddle: (Paddle, Player, Transform),
    held: Set<Key>,
    micros: u64,
) -> bool {
    let (up_key, down_key) = paddle.1.movement_keys();
    let y = paddle_moved(
        paddle.2.translation.y as int,
        paddle.0.speed as int,
        held.contains(up_key),
        held.contains(down_key),
        micros as int,
    );
    i64::MIN <= y <= i64::MAX
}

/// The height a paddle's center would have after the frame, whether or not
/// that height fits the coordinate type.
fn target_height(
    time_delta: u64,
    keyboard_input: &Input<KeyCode>,
    paddle: (Paddle, Player, Transform),
) -> (y: i128)
    ensures
        y == paddle_moved(
            paddle.2.translation.y as int,
            paddle.0.speed as int,
            held_keys(*keyboard_input).contains(paddle.1.movement_keys().0),
            held_keys(*keyboard_input).contains(paddle.1.movement_keys().1),
            time_delta as int,
        ),
{
    let (up_keycode, down_keycode): (Key, Key) = paddle.1.movement_keys();
    let step: i128 = travel(paddle.0.speed as i64, time_delta);
    assert(paddle.0.speed * time_delta <= 0xffff_ffff * 0xffff_ffff_ffff_ffff)
        by (nonlinear_arith)
        requires
            0 <= paddle.0.speed <= 0xffff_ffff,
            0 <= time_delta <= 0xffff_ffff_ffff_ffff,
    ;
    let mut y: i128 = paddle.2.translation.y as i128;
    if pressed(keyboard_input, up_keycode) {
        y = y + step;
    }
    if pressed(keyboard_input, down_keycode) {
        y = y - step;
    }
    y
}

/// Moves every paddle whose keys are held, by what its speed covers in
/// `time_delta` microseconds. Nothing keeps a paddle on the surface.
pub fn paddle_movement_system(
    time_delta: u64,
    keyboard_input: &Input<KeyCode>,
    paddles: &mut Vec<(Paddle, Player, Transform)>,
)
    requires
        forall|i: int|
            #![trigger old(paddles)@[i]]
            0 <= i < old(paddles)@.len() ==> paddle_can_move(
                old(paddles)@[i],
                held_keys(*keyboard_input),
                time_delta,
            ),
    ensures
        final(paddles)@.len() == old(paddles)@.len(),
        forall|i: int|
            #![trigger final(paddles)@[i]]
            0 <= i < old(paddles)@.len() ==> final(paddles)@[i] == paddle_after_movement(
                old(paddles)@[i],
                held_keys(*keyboard_input),
                time_delta,
            ),
{
    let ghost before_all = paddles@;
    let ghost held = held_keys(*keyboard_input);
    let mut i: usize = 0;
    while i < paddles.len()
        invariant
            i <= paddles@.len(),
            paddles@.len() == before_all.len(),
            held == held_keys(*keyboard_input),
            forall|k: int|
                #![trigger before_all[k]]
                0 <= k < before_all.len() ==> paddle_can_move(before_all[k], held, time_delta),
            forall|k: int|
                #![trigger paddles@[k]]
                i <= k < paddles@.len() ==> paddles@[k] == before_all[k],
            forall|k: int|
                #![trigger paddles@[k]]
                0 <= k < i ==> paddles@[k] == paddle_after_movement(
                    before_all[k],
                    held,
                    time_delta,
                ),
        decreases paddles@.len() - i,
    {
        let (paddle, player, transform): (Paddle, Player, Transform) = paddles[i];
        assert(paddles@[i as int] == before_all[i as int]);
        let y: i128 = target_height(time_delta, keyboard_input, (paddle, player, transform));
        let moved = Transform { translation: Vec2 { x: transform.translation.x, y: y as i64 } };
        paddles.set(i, (paddle, player, moved));
        i += 1;
    }
}

/// Moves every paddle as [`paddle_movement_system`] does, if every paddle can
/// move as far as its held keys ask; otherwise moves none. Tells whether the
/// paddles were moved.
pub fn paddle_movement_system_checked(
    time_delta: u64,
    keyboard_input: &Input<KeyCode>,
    paddles: &mut Vec<(Paddle, Player, Transform)>,
) -> (moved: bool)
    ensures
        final(paddles)@.len() == old(paddles)@.len(),
        moved <==> forall|i: int|
            #![trigger old(paddles)@[i]]
            0 <= i < old(paddles)@.len() ==> paddle_can_move(
                old(paddles)@[i],
                held_keys(*keyboard_input),
                time_delta,
            ),
        moved ==> forall|i: int|
            #![trigger final(paddles)@[i]]
            0 <= i < old(paddles)@.len() ==> final(paddles)@[i] == paddle_after_movement(
                old(paddles)@[i],
                held_keys(*keyboard_input),
                time_delta,
            ),
        !moved ==> final(paddles)@ == old(paddles)@,
{
    let mut i: usize = 0;
    while i < paddles.len()
        invariant
            i <= paddles@.len(),
            paddles@ == old(paddles)@,
            forall|k: int|
                #![trigger paddles@[k]]
                0 <= k < i ==> paddle_can_move(
                    paddles@[k],
                    held_keys(*keyboard_input),
                    time_delta,
                ),
        decreases paddles@.len() - i,
    {
        let y: i128 = target_height(time_delta, keyboard_input, paddles[i]);
        if y < i64::MIN as i128 || y > i64::MAX as i128 {
            assert(!paddle_can_move(
                old(paddles)@[i as int],
                held_keys(*keyboard_input),
                time_delta,
            ));
            return false;
        }
        i += 1;
    }
    paddle_movement_system(time_delta, keyboard_input, paddles);
    true
}

/// Laying a paddle out twice for the same surface gives what laying it out
/// once gives: its geometry depends on its side and the surface alone.
pub proof fn lemma_paddle_reset_idempotent(
    paddle: (Sprite, Transform, Paddle, Player),
    window: Window,
)
    ensures
        paddle_after_reset(paddle_after_reset(paddle, window), window) == paddle_after_reset(
            paddle,
            window,
        ),
{
}

/// Holding both of a paddle's keys for a frame leaves it where it was.
pub proof fn lemma_both_keys_cancel(y: int, speed: int, micros: int)
    ensures
        paddle_moved(y, speed, true, true, micros) == y,
{
}

} // verus!
