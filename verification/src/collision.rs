//! Overlap test for axis-aligned boxes, naming the side that was struck.
use vstd::prelude::*;
use crate::math::Vec2;

verus! {

/// Where the first box stands relative to the second box it overlaps.
///
/// `Left` says that the first box came from the left and struck the second
/// box's left side, `Top` that it stands above and struck the top side.
#[derive(Clone, Copy, Debug, PartialEq, Eq, Structural)]
pub enum Collision {
    Left,
    Right,
    Top,
    Bottom,
}

/// Twice the depth by which two extents overlap along one axis, each extent
/// given by its center and its full size. Positive exactly when they overlap
/// in more than a boundary point.
pub open spec fn penetration(a_pos: int, a_size: int, b_pos: int, b_size: int) -> int {
    if a_pos >= b_pos {
        a_size + b_size - 2 * (a_pos - b_pos)
    } else {
        a_size + b_size - 2 * (b_pos - a_pos)
    }
}

/// Whether two boxes overlap. Boxes that only touch do not.
pub open spec fn overlaps(a_pos: Vec2, a_size: Vec2, b_pos: Vec2, b_size: Vec2) -> bool {
    &&& penetration(a_pos.x as int, a_size.x as int, b_pos.x as int, b_size.x as int) > 0
    &&& penetration(a_pos.y as int, a_size.y as int, b_pos.y as int, b_size.y as int) > 0
}

/// The side on which box `a` strikes box `b`, if they overlap.
///
/// The axis of smaller penetration decides between horizontal and vertical;
/// with equal penetration the strike is horizontal. On that axis the side is
/// `Left` or `Bottom` when the center of `a` lies strictly before the center
/// of `b`, else `Right` or `Top`.
pub open spec fn struck_side(a_pos: Vec2, a_size: Vec2, b_pos: Vec2, b_size: Vec2) -> Option<
    Collision,
> {
    let depth_x = penetration(a_pos.x as int, a_size.x as int, b_pos.x as int, b_size.x as int);
    let depth_y = penetration(a_pos.y as int, a_size.y as int, b_pos.y as int, b_size.y as int);
    if !(depth_x > 0 && depth_y > 0) {
        None
    } else if depth_y < depth_x {
        Some(
            if a_pos.y < b_pos.y {
                Collision::Bottom
            } else {
                Collision::Top
            },
        )
    } else {
        Some(
            if a_pos.x < b_pos.x {
                Collision::Left
            } else {
                Collision::Right
            },
        )
    }
}

fn axis_penetration(a_pos: i64, a_size: i64, b_pos: i64, b_size: i64) -> (depth: i128)
    ensures
        depth == penetration(a_pos as int, a_size as int, b_pos as int, b_size as int),
{
    let sizes: i128 = a_size as i128 + b_size as i128;
    let apart: i128 = if a_pos >= b_pos {
        a_pos as i128 - b_pos as i128
    } else {
        b_pos as i128 - a_pos as i128
    };
    sizes - 2 * apart
}

/// Tests box `a` against box `b`, each given by its center and full size, and
/// names the side that `a` struck.
pub fn collide(a_pos: Vec2, a_size: Vec2, b_pos: Vec2, b_size: Vec2) -> (hit: Option<Collision>)
    ensures
        hit == struck_side(a_pos, a_size, b_pos, b_size),
        hit is Some <==> overlaps(a_pos, a_size, b_pos, b_size),
{
    let depth_x: i128 = axis_penetration(a_pos.x, a_size.x, b_pos.x, b_size.x);
    let depth_y: i128 = axis_penetration(a_pos.y, a_size.y, b_pos.y, b_size.y);
    if !(depth_x > 0 && depth_y > 0) {
        None
    } else if depth_y < depth_x {
        if a_pos.y < b_pos.y {
            Some(Collision::Bottom)
        } else {
            Some(Collision::Top)
        }
    } else {
        if a_pos.x < b_pos.x {
            Some(Collision::Left)
        } else {
            Some(Collision::Right)
        }
    }
}

} // verus!
