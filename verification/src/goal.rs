//! The goals: where they stand, and what happens when the ball enters one.
use vstd::prelude::*;
use crate::Player;
use crate::ball::Ball;
use crate::collision::{collide, overlaps};
use crate::math::{Sprite, Transform, Vec2, UNIT};
use crate::score::{lemma_after_one_more, lemma_score_never_decreases, Score};
use crate::window::{half, Reset, Window};

verus! {

/// Marks a goal. The side it belongs to is the `Player` beside it.
#[derive(Clone, Copy, Debug, PartialEq, Eq, Structural)]
pub struct Goal;

impl Goal {
    /// Width of a goal: twenty pixels.
    pub const THICKNESS: i64 = 20 * UNIT;
}

/// Size and place of a goal on the given surface.
///
/// A goal is as high as the surface and [`Goal::THICKNESS`] wide. Its center
/// lies half the surface width less half a thickness away from the middle: to
/// the positive side for `Left`, to the negative side for `Right`.
pub open spec fn goal_layout(player: Player, window: Window) -> (Sprite, Transform) {
    let x_offset = half(window.width - Goal::THICKNESS);
    let x_position = match player {
        Player::Left => x_offset,
        Player::Right => -x_offset,
    };
    (
        Sprite { size: Vec2 { x: Goal::THICKNESS, y: window.height as i64 } },
        Transform { translation: Vec2 { x: x_position as i64, y: 0 } },
    )
}

/// A goal entity after a layout reset: laid out for the surface, tags kept.
pub open spec fn goal_after_reset(
    goal: (Sprite, Transform, Goal, Player),
    window: Window,
) -> (Sprite, Transform, Goal, Player) {
    (goal_layout(goal.3, window).0, goal_layout(goal.3, window).1, goal.2, goal.3)
}

/// The sides of the goals that one ball's box overlaps, in the order of the
/// goals.
pub open spec fn goals_entered_by(
    ball: (Ball, Transform, Sprite),
    goals: Seq<(Transform, Sprite, Goal, Player)>,
) -> Seq<Player>
    decreases goals.len(),
{
    if goals.len() == 0 {
        Seq::empty()
    } else {
        let goal = goals.last();
        let before = goals_entered_by(ball, goals.drop_last());
        if overlaps(ball.1.translation, ball.2.size, goal.0.translation, goal.1.size) {
            before.push(goal.3)
        } else {
            before
        }
    }
}

/// The goal events of one frame: for each ball in turn, the sides of the
/// goals it overlaps.
pub open spec fn goals_entered(
    balls: Seq<(Ball, Transform, Sprite)>,
    goals: Seq<(Transform, Sprite, Goal, Player)>,
) -> Seq<Player>
    decreases balls.len(),
{
    if balls.len() == 0 {
        Seq::empty()
    } else {
        goals_entered(balls.drop_last(), goals) + goals_entered_by(balls.last(), goals)
    }
}

impl Goal {
    /// Size and place of `player`'s goal on the given surface.
    pub fn layout(player: Player, window: Window) -> (placed: (Sprite, Transform))
        ensures
            placed == goal_layout(player, window),
    {
        let x_offset: i64 = (window.width as i64 - Goal::THICKNESS) / 2;
        let x_position: i64 = match player {
            Player::Left => x_offset,
            Player::Right => -x_offset,
        };
        (
            Sprite { size: Vec2 { x: Goal::THICKNESS, y: window.height as i64 } },
            Transform { translation: Vec2 { x: x_position, y: 0 } },
        )
    }
}

/// The two goals of a new game, one for each side, not yet laid out.
pub fn spawn_goals() -> (goals: Vec<(Sprite, Transform, Goal, Player)>)
    ensures
        goals@.len() == 2,
        goals@[0] == spawn_goal_spec(Player::Left),
        goals@[1] == spawn_goal_spec(Player::Right),
{
    let mut goals: Vec<(Sprite, Transform, Goal, Player)> = Vec::new();
    goals.push(spawn_goal(Player::Left));
    goals.push(spawn_goal(Player::Right));
    goals
}

/// A goal that was not laid out yet: no extent, at the center.
pub open spec fn spawn_goal_spec(player: Player) -> (Sprite, Transform, Goal, Player) {
    (Sprite { size: Vec2::zero() }, Transform { translation: Vec2::zero() }, Goal, player)
}

fn spawn_goal(player: Player) -> (goal: (Sprite, Transform, Goal, Player))
    ensures
        goal == spawn_goal_spec(player),
{
    (Sprite::default(), Transform::default(), Goal, player)
}

/// Lays every goal out for the current surface, if a reset was raised this
/// frame. However many resets were raised, each goal is laid out once.
pub fn goal_reset_system(
    resets: &Vec<Reset>,
    primary_window: Option<Window>,
    goals: &mut Vec<(Sprite, Transform, Goal, Player)>,
)
    requires
        resets@.len() > 0 ==> primary_window is Some,
    ensures
        final(goals)@.len() == old(goals)@.len(),
        resets@.len() == 0 ==> final(goals)@ == old(goals)@,
        resets@.len() > 0 ==> forall|i: int|
            #![trigger final(goals)@[i]]
            0 <= i < old(goals)@.len() ==> final(goals)@[i] == goal_after_reset(
                old(goals)@[i],
                primary_window->0,
            ),
{
    if resets.len() == 0 {
        return ;
    }
    let window: Window = primary_window.unwrap();
    let ghost before_all = goals@;
    let mut i: usize = 0;
    while i < goals.len()
        invariant
            i <= goals@.len(),
            goals@.len() == before_all.len(),
            forall|k: int| #![trigger goals@[k]] i <= k < goals@.len() ==> goals@[k] == before_all[k],
            forall|k: int|
                #![trigger goals@[k]]
                0 <= k < i ==> goals@[k] == goal_after_reset(before_all[k], window),
        decreases goals@.len() - i,
    {
        let (_sprite, _transform, goal, player): (Sprite, Transform, Goal, Player) = goals[i];
        let (sprite, transform): (Sprite, Transform) = Goal::layout(player, window);
        goals.set(i, (sprite, transform, goal, player));
        i += 1;
    }
}

/// Finds the goal events of this frame: for each ball in turn, the sides of
/// the goals its box overlaps.
pub fn find_goals_entered(
    balls: &Vec<(Ball, Transform, Sprite)>,
    goals: &Vec<(Transform, Sprite, Goal, Player)>,
) -> (events: Vec<Player>)
    ensures
        events@ == goals_entered(balls@, goals@),
{
    let mut events: Vec<Player> = Vec::new();
    let mut i: usize = 0;
    while i < balls.len()
        invariant
            i <= balls@.len(),
            events@ == goals_entered(balls@.take(i as int), goals@),
        decreases balls@.len() - i,
    {
        let (_ball, ball_transform, ball_sprite): (Ball, Transform, Sprite) = balls[i];
        let ghost done = events@;
        proof {
            let upto = balls@.take(i as int + 1);
            assert(upto.drop_last() == balls@.take(i as int));
            assert(upto.last() == balls@[i as int]);
        }
        let mut j: usize = 0;
        while j < goals.len()
            invariant
                j <= goals@.len(),
                0 <= i < balls@.len(),
                balls@[i as int].1 == ball_transform,
                balls@[i as int].2 == ball_sprite,
                events@ == done + goals_entered_by(balls@[i as int], goals@.take(j as int)),
            decreases goals@.len() - j,
        {
            let (goal_transform, goal_sprite, _goal, player): (Transform, Sprite, Goal, Player) =
                goals[j];
            proof {
                let upto = goals@.take(j as int + 1);
                assert(upto.drop_last() == goals@.take(j as int));
                assert(upto.last() == goals@[j as int]);
            }
            if collide(
                ball_transform.translation,
                ball_sprite.size,
                goal_transform.translation,
                goal_sprite.size,
            ).is_some() {
                events.push(player);
                assert(events@ =~= done + goals_entered_by(
                    balls@[i as int],
                    goals@.take(j as int + 1),
                ));
            }
            j += 1;
        }
        proof {
            assert(goals@.take(goals@.len() as int) == goals@);
        }
        i += 1;
    }
    proof {
        assert(balls@.take(balls@.len() as int) == balls@);
    }
    events
}

/// Counts one goal and raises one reset for each of the events, in order.
fn count_goals(events: &Vec<Player>, score: &mut Score) -> (resets: Vec<Reset>)
    requires
        old(score).has_room_for(events@),
    ensures
        *final(score) == old(score).after(events@),
        resets@.len() == events@.len(),
{
    let ghost start = *score;
    let mut resets: Vec<Reset> = Vec::new();
    let mut k: usize = 0;
    while k < events.len()
        invariant
            k <= events@.len(),
            start.has_room_for(events@),
            start.has_room_for(events@.take(k as int)),
            *score == start.after(events@.take(k as int)),
            resets@.len() == k,
        decreases events@.len() - k,
    {
        proof {
            let upto = events@.take(k as int + 1);
            assert(upto.drop_last() == events@.take(k as int));
            assert(upto.last() == events@[k as int]);
            assert(upto == events@.take(k as int).push(events@[k as int]));
            lemma_score_never_decreases(start, events@, k as int + 1, k as int + 1);
            lemma_after_one_more(start, events@.take(k as int), events@[k as int]);
        }
        score.goal(events[k]);
        resets.push(Reset);
        k += 1;
    }
    proof {
        assert(events@.take(events@.len() as int) == events@);
    }
    resets
}

/// Tests every ball against every goal. Each overlap counts one goal for the
/// side the goal belongs to and raises one reset.
pub fn goal_collision_system(
    balls: &Vec<(Ball, Transform, Sprite)>,
    goals: &Vec<(Transform, Sprite, Goal, Player)>,
    score: &mut Score,
) -> (resets: Vec<Reset>)
    requires
        old(score).has_room_for(goals_entered(balls@, goals@)),
    ensures
        *final(score) == old(score).after(goals_entered(balls@, goals@)),
        resets@.len() == goals_entered(balls@, goals@).len(),
{
    let events: Vec<Player> = find_goals_entered(balls, goals);
    count_goals(&events, score)
}

/// Counts this frame's goals as [`goal_collision_system`] does, if the
/// counters have room for them; otherwise counts none and raises no reset.
pub fn goal_collision_system_checked(
    balls: &Vec<(Ball, Transform, Sprite)>,
    goals: &Vec<(Transform, Sprite, Goal, Player)>,
    score: &mut Score,
) -> (resets: Option<Vec<Reset>>)
    ensures
        resets is Some <==> old(score).has_room_for(goals_entered(balls@, goals@)),
        resets matches Some(raised) ==> {
            &&& *final(score) == old(score).after(goals_entered(balls@, goals@))
            &&& raised@.len() == goals_entered(balls@, goals@).len()
        },
        resets is None ==> *final(score) == *old(score),
{
    let events: Vec<Player> = find_goals_entered(balls, goals);
    if score.has_room(&events) {
        Some(count_goals(&events, score))
    } else {
        None
    }
}

/// Laying a goal out twice for the same surface gives what laying it out once
/// gives: its geometry depends on its side and the surface alone.
pub proof fn lemma_goal_reset_idempotent(goal: (Sprite, Transform, Goal, Player), window: Window)
    ensures
        goal_after_reset(goal_after_reset(goal, window), window) == goal_after_reset(
            goal,
            window,
        ),
{
}

} // verus!
