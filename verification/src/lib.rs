//! Simulation core of a two-player paddle-and-ball game.
//!
//! The crate owns the layout of every entity on the play field, moves the ball
//! and the paddles, reflects the ball off paddles and walls, counts goals and
//! recomputes all geometry when the surface changes or a goal is scored.
//!
//! All quantities are integers. Lengths and positions are counted in
//! [`math::UNIT`]ths of a pixel, speeds in those units per second and elapsed
//! time in microseconds, so every rule below is exact and every contract is a
//! statement about whole numbers.
use vstd::prelude::*;

pub mod ball;
pub mod collision;
pub mod goal;
pub mod input;
pub mod math;
pub mod paddle;
pub mod score;
pub mod wall;
pub mod window;

pub use ball::{
    ball_collision_system, ball_movement_system, ball_movement_system_checked,
    ball_resize_system, spawn_ball, Ball,
};
pub use collision::{collide, Collision};
pub use goal::{
    find_goals_entered, goal_collision_system, goal_collision_system_checked,
    goal_reset_system, spawn_goals, Goal,
};
pub use input::Key;
pub use math::{Sprite, Transform, Vec2, UNIT};
pub use paddle::{
    paddle_movement_system, paddle_movement_system_checked, paddle_reset_system, spawn_paddles,
    Paddle,
};
pub use score::{
    scoreboard_update_system, spawn_score_board, Score, ScoreBoard, Text, TextSection,
};
pub use wall::{spawn_walls, wall_resize_system, Wall};
pub use window::{window_resize_listener, Reset, Window, WindowResized};

verus! {

/// The two sides of the play field.
#[derive(Clone, Copy, Debug, PartialEq, Eq, Structural)]
pub enum Player {
    Left,
    Right,
}

/// Marks an entity the ball bounces off: paddles and walls carry it, goals do not.
#[derive(Clone, Copy, Debug, PartialEq, Eq, Structural)]
pub struct Collider;

} // verus!
