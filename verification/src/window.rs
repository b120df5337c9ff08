//! The play surface and the events that make every entity lay itself out anew.
use vstd::prelude::*;

verus! {

/// The surface the game is played on, in length units.
#[derive(Clone, Copy, Debug, PartialEq, Eq, Structural)]
pub struct Window {
    pub width: u32,
    pub height: u32,
}

/// Tells that the surface changed its size, and to what.
#[derive(Clone, Copy, Debug, PartialEq, Eq, Structural)]
pub struct WindowResized {
    pub width: u32,
    pub height: u32,
}

/// Asks every sized entity to recompute its geometry from the current surface.
///
/// It is raised when the surface was resized and when a goal was scored.
#[derive(Clone, Copy, Debug, PartialEq, Eq, Structural)]
pub struct Reset;

/// Half of `n`, rounded toward zero.
pub open spec fn half(n: int) -> int {
    if n >= 0 {
        n / 2
    } else {
        -((-n) / 2)
    }
}

/// Turns this frame's resize events into the frame's layout reset: one
/// `Reset` if the surface was resized at all, however often, and none
/// otherwise.
pub fn window_resize_listener(resize_events: &Vec<WindowResized>) -> (resets: Vec<Reset>)
    ensures
        resets@.len() == if resize_events@.len() > 0 {
            1nat
        } else {
            0nat
        },
{
    let mut resets: Vec<Reset> = Vec::new();
    if resize_events.len() > 0 {
        resets.push(Reset);
    }
    resets
}

} // verus!
