//! The walls that bound the field above and below.
use vstd::prelude::*;
use crate::Collider;
use crate::math::{Sprite, Transform, Vec2, UNIT};
use crate::window::{half, Reset, Window};

verus! {

/// A wall, named by the edge of the surface it runs along.
#[derive(Clone, Copy, Debug, PartialEq, Eq, Structural)]
pub enum Wall {
    Top,
    Bottom,
}

impl Wall {
    /// Height of a wall: twenty pixels.
    pub const THICKNESS: i64 = 20 * UNIT;

    /// Size and place of this wall on the given surface.
    pub fn layout(self, window: Window) -> (placed: (Sprite, Transform))
        ensures
            placed == wall_layout(self, window),
    {
        let y_offset: i64 = (window.height as i64 - Wall::THICKNESS) / 2;
        let y_position: i64 = match self {
            Wall::Top => y_offset,
            Wall::Bottom => -y_offset,
        };
        (
            Sprite { size: Vec2 { x: window.width as i64, y: Wall::THICKNESS } },
            Transform { translation: Vec2 { x: 0, y: y_position } },
        )
    }
}

/// Size and place of a wall on the given surface.
///
/// A wall is as wide as the surface and [`Wall::THICKNESS`] high. Its center
/// lies half the surface height less half a thickness away from the middle:
/// above it for `Top`, below it for `Bottom`.
pub open spec fn wall_layout(wall: Wall, window: Window) -> (Sprite, Transform) {
    let y_offset = half(window.height - Wall::THICKNESS);
    let y_position = match wall {
        Wall::Top => y_offset,
        Wall::Bottom => -y_offset,
    };
    (
        Sprite { size: Vec2 { x: window.width as i64, y: Wall::THICKNESS } },
        Transform { translation: Vec2 { x: 0, y: y_position as i64 } },
    )
}

/// A wall entity after a layout reset: laid out for the surface, variant kept.
pub open spec fn wall_after_reset(wall: (Sprite, Transform, Wall), window: Window) -> (
    Sprite,
    Transform,
    Wall,
) {
    (wall_layout(wall.2, window).0, wall_layout(wall.2, window).1, wall.2)
}

/// A wall that was not laid out yet: no extent, at the center, a collider.
pub open spec fn spawn_wall_spec(wall: Wall) -> (Sprite, Transform, Wall, Collider) {
    (Sprite { size: Vec2::zero() }, Transform { translation: Vec2::zero() }, wall, Collider)
}

fn spawn_wall(wall: Wall) -> (entity: (Sprite, Transform, Wall, Collider))
    ensures
        entity == spawn_wall_spec(wall),
{
    (Sprite::default(), Transform::default(), wall, Collider)
}

/// The two walls of a new game, top and bottom, not yet laid out.
pub fn spawn_walls() -> (walls: Vec<(Sprite, Transform, Wall, Collider)>)
    ensures
        walls@.len() == 2,
        walls@[0] == spawn_wall_spec(Wall::Top),
        walls@[1] == spawn_wall_spec(Wall::Bottom),
{
    let mut walls: Vec<(Sprite, Transform, Wall, Collider)> = Vec::new();
    walls.push(spawn_wall(Wall::Top));
    walls.push(spawn_wall(Wall::Bottom));
    walls
}

/// Lays every wall out for the current surface, if a reset was raised this
/// frame. However many resets were raised, each wall is laid out once.
pub fn wall_resize_system(
    resets: &Vec<Reset>,
    primary_window: Option<Window>,
    walls: &mut Vec<(Sprite, Transform, Wall)>,
)
    requires
        resets@.len() > 0 ==> primary_window is Some,
    ensures
        final(walls)@.len() == old(walls)@.len(),
        resets@.len() == 0 ==> final(walls)@ == old(walls)@,
        resets@.len() > 0 ==> forall|i: int|
            #![trigger final(walls)@[i]]
            0 <= i < old(walls)@.len() ==> final(walls)@[i] == wall_after_reset(
                old(walls)@[i],
                primary_window->0,
            ),
{
    if resets.len() == 0 {
        return ;
    }
    let window: Window = primary_window.unwrap();
    let ghost before_all = walls@;
    let mut i: usize = 0;
    while i < walls.len()
        invariant
            i <= walls@.len(),
            walls@.len() == before_all.len(),
            forall|k: int|
                #![trigger walls@[k]]
                i <= k < walls@.len() ==> walls@[k] == before_all[k],
            forall|k: int|
                #![trigger walls@[k]]
                0 <= k < i ==> walls@[k] == wall_after_reset(before_all[k], window),
        decreases walls@.len() - i,
    {
        let (_sprite, _transform, wall): (Sprite, Transform, Wall) = walls[i];
        let (sprite, transform): (Sprite, Transform) = wall.layout(window);
        walls.set(i, (sprite, transform, wall));
        i += 1;
    }
}

/// Laying a wall out twice for the same surface gives what laying it out once
/// gives: its geometry depends on its variant and the surface alone.
pub proof fn lemma_wall_reset_idempotent(wall: (Sprite, Transform, Wall), window: Window)
    ensures
        wall_after_reset(wall_after_reset(wall, window), window) == wall_after_reset(
            wall,
            window,
        ),
{
}

} // verus!
