use pong::ball::{
    ball_collision_system, ball_movement_system, ball_resize_system, spawn_ball, Ball,
};
use pong::goal::{goal_collision_system, goal_reset_system, spawn_goals, Goal};
use pong::math::{Sprite, Transform, Vec2, UNIT};
use pong::paddle::{paddle_reset_system, spawn_paddles};
use pong::score::{scoreboard_update_system, spawn_score_board, Score};
use pong::wall::{spawn_walls, wall_resize_system, Wall};
use pong::window::{window_resize_listener, Reset, Window, WindowResized};
use pong::{Collider, Player};

fn px(x: i64, y: i64) -> Vec2 {
    Vec2::new(x * UNIT, y * UNIT)
}

fn surface() -> Window {
    Window { width: 1280 * UNIT as u32, height: 720 * UNIT as u32 }
}

#[test]
fn initial_reset_on_a_1280_by_720_surface() {
    let resets = window_resize_listener(&vec![WindowResized { width: 1_280_000, height: 720_000 }]);
    assert_eq!(resets.len(), 1);
    let primary = Some(surface());

    let mut paddles: Vec<_> = spawn_paddles().into_iter().map(|p| (p.0, p.1, p.2, p.3)).collect();
    paddle_reset_system(&resets, primary, &mut paddles);
    let left = paddles.iter().find(|p| p.3 == Player::Left).unwrap();
    assert_eq!(left.0.size, px(20, 144));
    assert_eq!(left.1.translation, px(50 - 640, 0));
    assert_eq!(left.1.translation, px(-590, 0));

    let mut balls = vec![spawn_ball()];
    ball_resize_system(&resets, primary, &mut balls);
    assert_eq!(balls[0].0.size, px(36, 36));
    assert_eq!(balls[0].1.translation, px(0, 0));
    assert_eq!(balls[0].2.speed() as i64, 480 * UNIT);

    let mut walls: Vec<_> = spawn_walls().into_iter().map(|w| (w.0, w.1, w.2)).collect();
    wall_resize_system(&resets, primary, &mut walls);
    let top = walls.iter().find(|w| w.2 == Wall::Top).unwrap();
    assert_eq!(top.0.size, px(1280, 20));
    assert_eq!(top.1.translation, px(0, 350));

    let mut goals = spawn_goals();
    goal_reset_system(&resets, primary, &mut goals);
    let left_goal = goals.iter().find(|g| g.3 == Player::Left).unwrap();
    assert_eq!(left_goal.0.size, px(20, 720));
    assert_eq!(left_goal.1.translation, px(630, 0));
}

#[test]
fn ball_in_the_left_goal_scores_for_left_and_raises_one_reset() {
    let ball = (
        Ball::new(480_000, Vec2::new(-1000, 0)).unwrap(),
        Transform { translation: px(-600, 0) },
        Sprite { size: px(36, 36) },
    );
    // A goal of the left side that reaches the ball's box, and the other side's goal far off.
    let goals = vec![
        (Transform { translation: px(-630, 0) }, Sprite { size: px(30, 720) }, Goal, Player::Left),
        (Transform { translation: px(630, 0) }, Sprite { size: px(20, 720) }, Goal, Player::Right),
    ];
    let mut score = Score::default();
    let resets = goal_collision_system(&vec![ball], &goals, &mut score);
    assert_eq!(score.left, 1);
    assert_eq!(score.right, 0);
    assert_eq!(resets, vec![Reset]);
}

#[test]
fn a_goal_sends_the_ball_back_to_the_center_and_updates_the_board() {
    let primary = Some(surface());
    let start = vec![Reset];
    let mut goals = spawn_goals();
    goal_reset_system(&start, primary, &mut goals);
    let mut balls = vec![(
        Sprite { size: px(0, 0) },
        Transform { translation: px(0, 0) },
        Ball::new(0, Vec2::new(1000, 0)).unwrap(),
    )];
    ball_resize_system(&start, primary, &mut balls);
    let mut boards = vec![spawn_score_board()];
    let mut score = Score::default();

    // The ball flies to the right until it reaches the goal on the positive side.
    let mut frames = 0;
    let resets = loop {
        let mut moving: Vec<(Ball, Transform)> = balls.iter().map(|b| (b.2, b.1)).collect();
        ball_movement_system(16_667, &mut moving);
        balls[0].1 = moving[0].1;
        frames += 1;
        let tested: Vec<_> = balls.iter().map(|b| (b.2, b.1, b.0)).collect();
        let goal_parts: Vec<_> = goals.iter().map(|g| (g.1, g.0, g.2, g.3)).collect();
        let resets = goal_collision_system(&tested, &goal_parts, &mut score);
        if !resets.is_empty() {
            break resets;
        }
        assert!(frames < 1000);
    };
    // 480 pixels per second make 8 pixels per frame. The goal begins at 620
    // pixels, the ball's edge is 18 pixels ahead of its center: the center has
    // to pass 602 pixels, which it does in frame 76.
    assert_eq!(frames, 76);
    assert_eq!(balls[0].1.translation, px(608, 0));
    assert_eq!(resets, vec![Reset]);
    assert_eq!(score, Score { left: 1, right: 0 });

    ball_resize_system(&resets, primary, &mut balls);
    scoreboard_update_system(&resets, &score, &mut boards);
    assert_eq!(balls[0].1.translation, px(0, 0));
    assert_eq!(balls[0].2.direction(), Vec2::new(1000, 0));
    assert_eq!(balls[0].2.speed(), 480_000);
    assert_eq!(boards[0].0.sections[0].value, "1 : 0");
}

#[test]
fn on_the_laid_out_field_the_negative_side_belongs_to_right() {
    let primary = Some(surface());
    let mut goals = spawn_goals();
    goal_reset_system(&vec![Reset], primary, &mut goals);
    let goal_parts: Vec<_> = goals.iter().map(|g| (g.1, g.0, g.2, g.3)).collect();
    let ball_at = |x: i64| {
        vec![(
            Ball::new(480_000, Vec2::new(-1000, 0)).unwrap(),
            Transform { translation: px(x, 0) },
            Sprite { size: px(36, 36) },
        )]
    };
    let mut score = Score::default();
    // At 600 pixels left of the center the ball's edge is still 2 pixels short of the goal.
    assert!(goal_collision_system(&ball_at(-600), &goal_parts, &mut score).is_empty());
    assert_eq!(score, Score { left: 0, right: 0 });
    assert_eq!(goal_collision_system(&ball_at(-603), &goal_parts, &mut score).len(), 1);
    assert_eq!(score, Score { left: 0, right: 1 });
}

#[test]
fn ball_bounces_between_the_walls() {
    let primary = Some(surface());
    let mut walls: Vec<_> = spawn_walls().into_iter().map(|w| (w.0, w.1, w.2)).collect();
    wall_resize_system(&vec![Reset], primary, &mut walls);
    let colliders: Vec<(Collider, Transform, Sprite)> =
        walls.iter().map(|w| (Collider, w.1, w.0)).collect();
    let mut ball = Ball::new(480_000, Vec2::new(0, 1)).unwrap();
    let mut at = Transform { translation: px(0, 0) };
    let size = Sprite { size: px(36, 36) };
    let mut turns = Vec::new();
    for frame in 0..200 {
        let mut moving = vec![(ball, at)];
        ball_movement_system(16_667, &mut moving);
        at = moving[0].1;
        let mut tested = vec![(ball, at, size)];
        ball_collision_system(&mut tested, &colliders);
        if tested[0].0.direction() != ball.direction() {
            turns.push((frame, tested[0].0.direction().y));
        }
        ball = tested[0].0;
        assert!(at.translation.y.abs() <= 330 * UNIT);
    }
    // The walls' inner edges lie 340 pixels from the center, the ball's edge
    // 18 pixels from its center. Passing 322 pixels takes 41 frames of 8
    // pixels, which ends at 328; from there, passing 322 pixels on the other
    // side is more than 650 pixels away and takes 82 frames.
    assert_eq!(turns, vec![(40, -1), (122, 1)]);
}
