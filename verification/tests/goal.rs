use pong::ball::Ball;
use pong::goal::{
    find_goals_entered, goal_collision_system, goal_collision_system_checked, goal_reset_system,
    spawn_goals, Goal,
};
use pong::math::{Sprite, Transform, Vec2};
use pong::score::Score;
use pong::window::{Reset, Window};
use pong::Player;

fn v(x: i64, y: i64) -> Vec2 {
    Vec2::new(x, y)
}

fn ball_at(x: i64, y: i64) -> (Ball, Transform, Sprite) {
    (
        Ball::new(480_000, v(-1000, 0)).unwrap(),
        Transform { translation: v(x, y) },
        Sprite { size: v(36_000, 36_000) },
    )
}

fn goal_at(player: Player, x: i64) -> (Transform, Sprite, Goal, Player) {
    (Transform { translation: v(x, 0) }, Sprite { size: v(20_000, 720_000) }, Goal, player)
}

#[test]
fn goal_thickness_is_twenty_pixels() {
    assert_eq!(Goal::THICKNESS, 20_000);
}

#[test]
fn spawned_goals_are_left_then_right() {
    let goals = spawn_goals();
    assert_eq!(goals.len(), 2);
    assert_eq!(goals[0], (Sprite { size: v(0, 0) }, Transform { translation: v(0, 0) }, Goal, Player::Left));
    assert_eq!(goals[1], (Sprite { size: v(0, 0) }, Transform { translation: v(0, 0) }, Goal, Player::Right));
}

#[test]
fn goal_layout_puts_left_on_the_positive_side() {
    let window = Window { width: 1_280_000, height: 720_000 };
    let (sprite, transform) = Goal::layout(Player::Left, window);
    assert_eq!(sprite.size, v(20_000, 720_000));
    assert_eq!(transform.translation, v(630_000, 0));
    let (sprite, transform) = Goal::layout(Player::Right, window);
    assert_eq!(sprite.size, v(20_000, 720_000));
    assert_eq!(transform.translation, v(-630_000, 0));
}

#[test]
fn goal_layout_on_a_surface_narrower_than_a_goal() {
    let at = |width: u32, player: Player| Goal::layout(player, Window { width, height: 7 }).1.translation.x;
    assert_eq!(at(10_000, Player::Left), -5_000);
    assert_eq!(at(10_000, Player::Right), 5_000);
    assert_eq!(at(0, Player::Left), -10_000);
    assert_eq!(at(19_997, Player::Left), -1);
    assert_eq!(at(19_997, Player::Right), 1);
    assert_eq!(at(19_999, Player::Left), 0);
    assert_eq!(at(20_000, Player::Left), 0);
    assert_eq!(at(20_001, Player::Right), 0);
    assert_eq!(at(20_002, Player::Right), -1);
    assert_eq!(at(u32::MAX, Player::Left), 2_147_473_647);
    assert_eq!(Goal::layout(Player::Left, Window { width: 0, height: u32::MAX }).0.size, v(20_000, 4_294_967_295));
}

#[test]
fn goal_reset_lays_out_every_goal() {
    let mut goals = vec![
        (Sprite { size: v(1, 1) }, Transform { translation: v(5, 5) }, Goal, Player::Right),
        (Sprite { size: v(2, 2) }, Transform { translation: v(6, 6) }, Goal, Player::Left),
    ];
    goal_reset_system(&vec![Reset, Reset, Reset], Some(Window { width: 800_000, height: 600_000 }), &mut goals);
    assert_eq!(goals[0], (Sprite { size: v(20_000, 600_000) }, Transform { translation: v(-390_000, 0) }, Goal, Player::Right));
    assert_eq!(goals[1], (Sprite { size: v(20_000, 600_000) }, Transform { translation: v(390_000, 0) }, Goal, Player::Left));
}

#[test]
fn goal_reset_twice_is_the_same_as_once() {
    let mut goals = spawn_goals();
    let window = Some(Window { width: 1_280_000, height: 720_000 });
    goal_reset_system(&vec![Reset], window, &mut goals);
    let once = goals.clone();
    goal_reset_system(&vec![Reset], window, &mut goals);
    assert_eq!(goals, once);
}

#[test]
fn goals_without_reset_stay_as_they_are() {
    let mut goals = spawn_goals();
    goal_reset_system(&Vec::new(), Some(Window { width: 1_280_000, height: 720_000 }), &mut goals);
    assert_eq!(goals, spawn_goals());
    goal_reset_system(&Vec::new(), None, &mut goals);
    assert_eq!(goals, spawn_goals());
}

#[test]
fn ball_in_no_goal_scores_nothing() {
    let balls = vec![ball_at(0, 0)];
    let goals = vec![goal_at(Player::Left, 630_000), goal_at(Player::Right, -630_000)];
    let mut score = Score { left: 3, right: 4 };
    let resets = goal_collision_system(&balls, &goals, &mut score);
    assert!(resets.is_empty());
    assert_eq!(score, Score { left: 3, right: 4 });
    assert!(find_goals_entered(&balls, &goals).is_empty());
}

#[test]
fn ball_touching_a_goal_has_not_entered_it() {
    let balls = vec![ball_at(602_000, 0)];
    let goals = vec![goal_at(Player::Left, 630_000)];
    let mut score = Score::default();
    assert!(goal_collision_system(&balls, &goals, &mut score).is_empty());
    assert_eq!(score, Score { left: 0, right: 0 });
    let balls = vec![ball_at(602_001, 0)];
    assert_eq!(goal_collision_system(&balls, &goals, &mut score).len(), 1);
    assert_eq!(score, Score { left: 1, right: 0 });
}

#[test]
fn goal_counts_for_the_side_it_belongs_to() {
    let goals = vec![goal_at(Player::Left, 630_000), goal_at(Player::Right, -630_000)];
    let mut score = Score::default();
    let resets = goal_collision_system(&vec![ball_at(610_000, 0)], &goals, &mut score);
    assert_eq!(resets, vec![Reset]);
    assert_eq!(score, Score { left: 1, right: 0 });
    let resets = goal_collision_system(&vec![ball_at(-610_000, 100_000)], &goals, &mut score);
    assert_eq!(resets, vec![Reset]);
    assert_eq!(score, Score { left: 1, right: 1 });
}

#[test]
fn ball_deep_inside_a_goal_still_counts() {
    let mut small = ball_at(630_000, 0);
    small.2 = Sprite { size: v(5_000, 5_000) };
    let goals = vec![goal_at(Player::Left, 630_000)];
    let mut score = Score::default();
    assert_eq!(goal_collision_system(&vec![small], &goals, &mut score).len(), 1);
    assert_eq!(score, Score { left: 1, right: 0 });
}

#[test]
fn every_overlap_counts_once() {
    // Two balls, three goals; the first ball is in two goals of the left side,
    // the second in the goal of the right side.
    let balls = vec![ball_at(610_000, 0), ball_at(-610_000, 0), ball_at(0, 0)];
    let goals = vec![
        goal_at(Player::Left, 630_000),
        goal_at(Player::Right, -630_000),
        goal_at(Player::Left, 600_000),
    ];
    assert_eq!(
        find_goals_entered(&balls, &goals),
        vec![Player::Left, Player::Left, Player::Right]
    );
    let mut score = Score { left: 10, right: 20 };
    let resets = goal_collision_system(&balls, &goals, &mut score);
    assert_eq!(resets.len(), 3);
    assert_eq!(score, Score { left: 12, right: 21 });
}

#[test]
fn goals_in_a_row_add_up_and_never_decrease() {
    let goals = vec![goal_at(Player::Left, 630_000), goal_at(Player::Right, -630_000)];
    let frames = [610_000, -610_000, 0, 610_000, 610_000, -610_000, 0, -610_000, 610_000];
    let mut score = Score::default();
    let mut events = 0;
    for x in frames {
        let before = score;
        let resets = goal_collision_system(&vec![ball_at(x, 0)], &goals, &mut score);
        events += resets.len();
        assert!(score.left >= before.left);
        assert!(score.right >= before.right);
        assert_eq!(score.left + score.right, events);
    }
    assert_eq!(events, 7);
    assert_eq!(score, Score { left: 4, right: 3 });
}

#[test]
fn checked_system_counts_when_there_is_room() {
    let goals = vec![goal_at(Player::Left, 630_000), goal_at(Player::Right, -630_000)];
    let mut score = Score { left: usize::MAX - 1, right: usize::MAX };
    let resets = goal_collision_system_checked(&vec![ball_at(610_000, 0)], &goals, &mut score);
    assert_eq!(resets, Some(vec![Reset]));
    assert_eq!(score, Score { left: usize::MAX, right: usize::MAX });
    let resets = goal_collision_system_checked(&vec![ball_at(0, 0)], &goals, &mut score);
    assert_eq!(resets, Some(Vec::new()));
    assert_eq!(score, Score { left: usize::MAX, right: usize::MAX });
}

#[test]
fn checked_system_counts_nothing_when_a_counter_is_full() {
    let goals = vec![goal_at(Player::Left, 630_000), goal_at(Player::Right, -630_000)];
    let mut score = Score { left: usize::MAX, right: 5 };
    let balls = vec![ball_at(-610_000, 0), ball_at(610_000, 0)];
    assert_eq!(goal_collision_system_checked(&balls, &goals, &mut score), None);
    assert_eq!(score, Score { left: usize::MAX, right: 5 });
    let mut score = Score { left: 5, right: usize::MAX };
    assert_eq!(goal_collision_system_checked(&balls, &goals, &mut score), None);
    assert_eq!(score, Score { left: 5, right: usize::MAX });
}
