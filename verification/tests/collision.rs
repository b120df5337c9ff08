use pong::collision::{collide, Collision};
use pong::math::{isqrt, travel, Vec2};

fn v(x: i64, y: i64) -> Vec2 {
    Vec2::new(x, y)
}

#[test]
fn boxes_apart_do_not_collide() {
    assert_eq!(collide(v(0, 0), v(10, 10), v(100, 0), v(10, 10)), None);
    assert_eq!(collide(v(0, 0), v(10, 10), v(0, 100), v(10, 10)), None);
    assert_eq!(collide(v(0, 0), v(10, 10), v(8, 100), v(10, 10)), None);
}

#[test]
fn touching_boxes_do_not_collide() {
    assert_eq!(collide(v(0, 0), v(10, 10), v(10, 0), v(10, 10)), None);
    assert_eq!(collide(v(0, 0), v(10, 10), v(0, -10), v(10, 10)), None);
    assert_eq!(collide(v(0, 0), v(10, 10), v(10, 10), v(10, 10)), None);
}

#[test]
fn odd_sizes_are_not_rounded() {
    // The extents are 2.5 and 2.5 wide on each side of centers 5 apart: they touch.
    assert_eq!(collide(v(0, 0), v(5, 5), v(5, 0), v(5, 5)), None);
    // One unit wider, they overlap by one unit.
    assert_eq!(collide(v(0, 0), v(6, 5), v(5, 0), v(5, 5)), Some(Collision::Left));
}

#[test]
fn shallow_horizontal_overlap_strikes_left_or_right() {
    assert_eq!(collide(v(0, 0), v(10, 10), v(9, 2), v(10, 10)), Some(Collision::Left));
    assert_eq!(collide(v(0, 0), v(10, 10), v(-9, 2), v(10, 10)), Some(Collision::Right));
}

#[test]
fn shallow_vertical_overlap_strikes_top_or_bottom() {
    assert_eq!(collide(v(0, 0), v(10, 10), v(2, -9), v(10, 10)), Some(Collision::Top));
    assert_eq!(collide(v(0, 0), v(10, 10), v(2, 9), v(10, 10)), Some(Collision::Bottom));
}

#[test]
fn equal_penetration_counts_as_horizontal() {
    assert_eq!(collide(v(0, 0), v(10, 10), v(9, 9), v(10, 10)), Some(Collision::Left));
    assert_eq!(collide(v(0, 0), v(10, 10), v(-9, -9), v(10, 10)), Some(Collision::Right));
}

#[test]
fn coinciding_boxes_collide() {
    assert_eq!(collide(v(3, 4), v(10, 10), v(3, 4), v(10, 10)), Some(Collision::Right));
    assert_eq!(collide(v(3, 4), v(10, 20), v(3, 4), v(10, 20)), Some(Collision::Right));
    assert_eq!(collide(v(3, 4), v(20, 10), v(3, 4), v(20, 10)), Some(Collision::Top));
}

#[test]
fn a_box_inside_another_collides() {
    assert_eq!(collide(v(1, 0), v(2, 2), v(0, 0), v(100, 50)), Some(Collision::Top));
    assert_eq!(collide(v(0, -1), v(2, 2), v(0, 0), v(50, 100)), Some(Collision::Right));
    assert_eq!(collide(v(0, -1), v(2, 2), v(0, 0), v(100, 50)), Some(Collision::Bottom));
}

#[test]
fn ball_over_a_wide_wall_strikes_its_top() {
    let wall_pos = v(0, -350_000);
    let wall_size = v(1_280_000, 20_000);
    let hit = collide(v(200_000, -325_000), v(36_000, 36_000), wall_pos, wall_size);
    assert_eq!(hit, Some(Collision::Top));
}

#[test]
fn far_corners_of_the_range_do_not_overflow() {
    let hit = collide(v(i64::MIN, i64::MIN), v(i64::MAX, i64::MAX), v(i64::MAX, i64::MAX), v(i64::MAX, i64::MAX));
    assert_eq!(hit, None);
    let hit = collide(v(i64::MAX, 0), v(i64::MAX, i64::MAX), v(i64::MAX, 0), v(i64::MIN, i64::MAX));
    assert_eq!(hit, None);
}

#[test]
fn isqrt_rounds_down() {
    assert_eq!(isqrt(0), 0);
    assert_eq!(isqrt(1), 1);
    assert_eq!(isqrt(2), 1);
    assert_eq!(isqrt(3), 1);
    assert_eq!(isqrt(4), 2);
    assert_eq!(isqrt(15), 3);
    assert_eq!(isqrt(16), 4);
    assert_eq!(isqrt(17), 4);
    assert_eq!(isqrt(500_000), 707);
    assert_eq!(isqrt(1_000_000_000_000), 1_000_000);
    assert_eq!(isqrt(u128::MAX), u64::MAX);
}

#[test]
fn travel_rounds_toward_zero() {
    assert_eq!(travel(480_000, 16_667), 8_000);
    assert_eq!(travel(-480_000, 16_667), -8_000);
    assert_eq!(travel(1, 999_999), 0);
    assert_eq!(travel(-1, 999_999), 0);
    assert_eq!(travel(1, 1_000_000), 1);
    assert_eq!(travel(0, u64::MAX), 0);
    assert_eq!(travel(3, 1_500_000), 4);
    assert_eq!(travel(-3, 1_500_000), -4);
    assert_eq!(travel(i64::MIN, u64::MAX), -((((1u128 << 63) * (u64::MAX as u128)) / 1_000_000) as i128));
}
