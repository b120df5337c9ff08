//! The ball: its speed and direction, and how it bounces off colliders.
use vstd::prelude::*;
use crate::Collider;
use crate::collision::{collide, overlaps, struck_side, Collision};
use crate::math::{
    advance, advanced, can_advance, fits_after, floor_sqrt, isqrt, lemma_floor_sqrt,
    lemma_floor_sqrt_unique, Sprite, Transform, Vec2,
};
use crate::window::{Reset, Window};

verus! {

/// Largest magnitude a direction coordinate may have.
pub const DIRECTION_LIMIT: i64 = 0x7fff_ffff;

/// Whether `d` can serve as a direction: it is not the zero vector, so that it
/// can be normalized, and both coordinates lie within [`DIRECTION_LIMIT`].
pub open spec fn is_direction(d: Vec2) -> bool {
    &&& -DIRECTION_LIMIT <= d.x <= DIRECTION_LIMIT
    &&& -DIRECTION_LIMIT <= d.y <= DIRECTION_LIMIT
    &&& (d.x != 0 || d.y != 0)
}

/// The direction after a strike on the given side.
///
/// A coordinate changes sign only while the ball still moves toward the side
/// it struck, so a ball that stays inside a collider is not turned back again.
pub open spec fn reflected(d: Vec2, collision: Collision) -> Vec2 {
    match collision {
        Collision::Left => if d.x > 0 {
            Vec2 { x: (-d.x) as i64, y: d.y }
        } else {
            d
        },
        Collision::Right => if d.x < 0 {
            Vec2 { x: (-d.x) as i64, y: d.y }
        } else {
            d
        },
        Collision::Top => if d.y < 0 {
            Vec2 { x: d.x, y: (-d.y) as i64 }
        } else {
            d
        },
        Collision::Bottom => if d.y > 0 {
            Vec2 { x: d.x, y: (-d.y) as i64 }
        } else {
            d
        },
    }
}

/// The direction after the ball's box was tested against one collider's box.
pub open spec fn bounced(
    d: Vec2,
    ball_pos: Vec2,
    ball_size: Vec2,
    collider_pos: Vec2,
    collider_size: Vec2,
) -> Vec2 {
    match struck_side(ball_pos, ball_size, collider_pos, collider_size) {
        Some(collision) => reflected(d, collision),
        None => d,
    }
}

/// The direction after the ball's box was tested against every collider in
/// turn, each test starting from the direction the previous one left.
pub open spec fn bounced_off_all(
    d: Vec2,
    ball_pos: Vec2,
    ball_size: Vec2,
    colliders: Seq<(Collider, Transform, Sprite)>,
) -> Vec2
    decreases colliders.len(),
{
    if colliders.len() == 0 {
        d
    } else {
        let last = colliders.last();
        bounced(
            bounced_off_all(d, ball_pos, ball_size, colliders.drop_last()),
            ball_pos,
            ball_size,
            last.1.translation,
            last.2.size,
        )
    }
}

/// The side on which a box with the given center and size strikes one collider.
pub open spec fn struck_by(
    ball_pos: Vec2,
    ball_size: Vec2,
    collider: (Collider, Transform, Sprite),
) -> Option<Collision> {
    struck_side(ball_pos, ball_size, collider.1.translation, collider.2.size)
}

/// Whether the box strikes at least one of the colliders on the given side.
pub open spec fn strikes(
    ball_pos: Vec2,
    ball_size: Vec2,
    colliders: Seq<(Collider, Transform, Sprite)>,
    side: Collision,
) -> bool {
    exists|j: int|
        0 <= j < colliders.len() && #[trigger] struck_by(ball_pos, ball_size, colliders[j])
            == Some(side)
}

/// A ball whose box overlaps no collider leaves the collision pass with the
/// direction it entered with.
pub proof fn lemma_no_overlap_keeps_direction(
    d: Vec2,
    ball_pos: Vec2,
    ball_size: Vec2,
    colliders: Seq<(Collider, Transform, Sprite)>,
)
    requires
        forall|j: int|
            0 <= j < colliders.len() ==> !overlaps(
                ball_pos,
                ball_size,
                (#[trigger] colliders[j]).1.translation,
                colliders[j].2.size,
            ),
    ensures
        bounced_off_all(d, ball_pos, ball_size, colliders) == d,
    decreases colliders.len(),
{
    if colliders.len() > 0 {
        let rest = colliders.drop_last();
        assert forall|j: int| 0 <= j < rest.len() implies !overlaps(
            ball_pos,
            ball_size,
            (#[trigger] rest[j]).1.translation,
            rest[j].2.size,
        ) by {
            assert(rest[j] == colliders[j]);
        }
        lemma_no_overlap_keeps_direction(d, ball_pos, ball_size, rest);
        let last = colliders[colliders.len() - 1];
        assert(!overlaps(ball_pos, ball_size, last.1.translation, last.2.size));
    }
}

/// A strike never makes a direction degenerate: what `reflected` returns is a
/// direction again, with each coordinate kept or negated.
pub proof fn lemma_reflected_is_direction(d: Vec2, collision: Collision)
    requires
        is_direction(d),
    ensures
        is_direction(reflected(d, collision)),
        reflected(d, collision).x == d.x || reflected(d, collision).x == -d.x,
        reflected(d, collision).y == d.y || reflected(d, collision).y == -d.y,
{
}

/// A second strike on the same side does not turn the ball back: after the
/// first one the ball no longer moves toward that side.
pub proof fn lemma_reflect_twice(d: Vec2, collision: Collision)
    requires
        is_direction(d),
    ensures
        reflected(reflected(d, collision), collision) == reflected(d, collision),
{
}

proof fn lemma_strikes_step(
    ball_pos: Vec2,
    ball_size: Vec2,
    colliders: Seq<(Collider, Transform, Sprite)>,
    side: Collision,
)
    requires
        colliders.len() > 0,
    ensures
        strikes(ball_pos, ball_size, colliders, side) <==> (strikes(
            ball_pos,
            ball_size,
            colliders.drop_last(),
            side,
        ) || struck_by(ball_pos, ball_size, colliders.last()) == Some(side)),
{
    let rest = colliders.drop_last();
    if strikes(ball_pos, ball_size, rest, side) {
        let j = choose|j: int|
            0 <= j < rest.len() && #[trigger] struck_by(ball_pos, ball_size, rest[j]) == Some(
                side,
            );
        assert(rest[j] == colliders[j]);
        assert(struck_by(ball_pos, ball_size, colliders[j]) == Some(side));
    }
    if struck_by(ball_pos, ball_size, colliders.last()) == Some(side) {
        assert(struck_by(ball_pos, ball_size, colliders[colliders.len() - 1]) == Some(side));
    }
    if strikes(ball_pos, ball_size, colliders, side) {
        let j = choose|j: int|
            0 <= j < colliders.len() && #[trigger] struck_by(ball_pos, ball_size, colliders[j])
                == Some(side);
        if j < rest.len() {
            assert(rest[j] == colliders[j]);
            assert(struck_by(ball_pos, ball_size, rest[j]) == Some(side));
        }
    }
}

/// What a collision pass makes of a direction, one coordinate at a time.
///
/// Each coordinate is kept or negated. Where no collider is struck on the
/// right, the horizontal coordinate is negated exactly when some collider is
/// struck on the left while the ball moves right; the other three sides read
/// alike.
pub proof fn lemma_bounced_off_all_by_side(
    d: Vec2,
    ball_pos: Vec2,
    ball_size: Vec2,
    colliders: Seq<(Collider, Transform, Sprite)>,
)
    requires
        is_direction(d),
    ensures
        ({
            let e = bounced_off_all(d, ball_pos, ball_size, colliders);
            let left = strikes(ball_pos, ball_size, colliders, Collision::Left);
            let right = strikes(ball_pos, ball_size, colliders, Collision::Right);
            let top = strikes(ball_pos, ball_size, colliders, Collision::Top);
            let bottom = strikes(ball_pos, ball_size, colliders, Collision::Bottom);
            &&& is_direction(e)
            &&& e.x == d.x || e.x == -d.x
            &&& e.y == d.y || e.y == -d.y
            &&& !right ==> e.x == if left && d.x > 0 {
                -d.x
            } else {
                d.x as int
            }
            &&& !left ==> e.x == if right && d.x < 0 {
                -d.x
            } else {
                d.x as int
            }
            &&& !bottom ==> e.y == if top && d.y < 0 {
                -d.y
            } else {
                d.y as int
            }
            &&& !top ==> e.y == if bottom && d.y > 0 {
                -d.y
            } else {
                d.y as int
            }
        }),
    decreases colliders.len(),
{
    if colliders.len() > 0 {
        lemma_bounced_off_all_by_side(d, ball_pos, ball_size, colliders.drop_last());
        lemma_strikes_step(ball_pos, ball_size, colliders, Collision::Left);
        lemma_strikes_step(ball_pos, ball_size, colliders, Collision::Right);
        lemma_strikes_step(ball_pos, ball_size, colliders, Collision::Top);
        lemma_strikes_step(ball_pos, ball_size, colliders, Collision::Bottom);
    }
}

/// Running the collision pass a second time over unchanged boxes changes
/// nothing, provided the ball is not struck on two opposite sides at once:
/// every coordinate the first pass negated now points away from the side
/// that was struck.
pub proof fn lemma_second_pass_keeps_direction(
    d: Vec2,
    ball_pos: Vec2,
    ball_size: Vec2,
    colliders: Seq<(Collider, Transform, Sprite)>,
)
    requires
        is_direction(d),
        !(strikes(ball_pos, ball_size, colliders, Collision::Left) && strikes(
            ball_pos,
            ball_size,
            colliders,
            Collision::Right,
        )),
        !(strikes(ball_pos, ball_size, colliders, Collision::Top) && strikes(
            ball_pos,
            ball_size,
            colliders,
            Collision::Bottom,
        )),
    ensures
        bounced_off_all(
            bounced_off_all(d, ball_pos, ball_size, colliders),
            ball_pos,
            ball_size,
            colliders,
        ) == bounced_off_all(d, ball_pos, ball_size, colliders),
{
    let e = bounced_off_all(d, ball_pos, ball_size, colliders);
    lemma_bounced_off_all_by_side(d, ball_pos, ball_size, colliders);
    lemma_bounced_off_all_by_side(e, ball_pos, ball_size, colliders);
}

/// The squared length of `d`.
pub open spec fn length_squared(d: Vec2) -> int {
    d.x * d.x + d.y * d.y
}

/// One coordinate of a velocity: `speed` times the coordinate `c` of the
/// direction, divided by the direction's length, rounded toward zero.
pub open spec fn velocity_component(speed: int, c: int, length_squared: int) -> int {
    let magnitude = floor_sqrt((((speed * speed) * (c * c)) / length_squared) as nat) as int;
    if c >= 0 {
        magnitude
    } else {
        -magnitude
    }
}

/// The velocity of something that moves at `speed` along `direction`: the
/// direction scaled to the length `speed`, each coordinate rounded toward
/// zero.
pub open spec fn velocity_of(speed: u32, direction: Vec2) -> Vec2 {
    Vec2 {
        x: velocity_component(speed as int, direction.x as int, length_squared(direction)) as i64,
        y: velocity_component(speed as int, direction.y as int, length_squared(direction)) as i64,
    }
}

/// The speed of the ball on the given surface: two thirds of the surface
/// height per second.
pub open spec fn ball_speed(window: Window) -> u32 {
    ((2 * window.height) / 3) as u32
}

/// Size and place of the ball after a layout reset: a square whose side is a
/// twentieth of the surface height, at the center of the surface.
pub open spec fn ball_layout(window: Window) -> (Sprite, Transform) {
    (
        Sprite { size: Vec2 { x: (window.height / 20) as i64, y: (window.height / 20) as i64 } },
        Transform { translation: Vec2::zero() },
    )
}

/// Relates a ball entity before and after a layout reset: size, place and
/// speed follow from the surface, the direction stays as it was.
pub open spec fn ball_reset_to(
    before: (Sprite, Transform, Ball),
    after: (Sprite, Transform, Ball),
    window: Window,
) -> bool {
    &&& after.0 == ball_layout(window).0
    &&& after.1 == ball_layout(window).1
    &&& after.2.speed() == ball_speed(window)
    &&& after.2.direction() == before.2.direction()
}

/// The ball. Its direction is never the zero vector.
#[derive(Clone, Copy, Debug)]
pub struct Ball {
    speed: u32,
    direction: Vec2,
}

impl Ball {
    #[verifier::type_invariant]
    spec fn well_formed(self) -> bool {
        is_direction(self.direction)
    }

    /// Length units travelled per second.
    pub closed spec fn spec_speed(&self) -> u32 {
        self.speed
    }

    /// The direction of travel; only its orientation matters, not its length.
    pub closed spec fn spec_direction(&self) -> Vec2 {
        self.direction
    }

    /// A ball with the given speed and direction, unless `direction` cannot be
    /// one.
    pub fn new(speed: u32, direction: Vec2) -> (ball: Option<Ball>)
        ensures
            ball is Some <==> is_direction(direction),
            ball matches Some(b) ==> b.speed() == speed && b.direction() == direction,
    {
        if -DIRECTION_LIMIT <= direction.x && direction.x <= DIRECTION_LIMIT && -DIRECTION_LIMIT
            <= direction.y && direction.y <= DIRECTION_LIMIT && (direction.x != 0 || direction.y
            != 0) {
            Some(Ball { speed, direction })
        } else {
            None
        }
    }

    #[verifier::when_used_as_spec(spec_speed)]
    pub fn speed(&self) -> (s: u32)
        ensures
            s == self.speed(),
    {
        self.speed
    }

    #[verifier::when_used_as_spec(spec_direction)]
    pub fn direction(&self) -> (d: Vec2)
        ensures
            d == self.direction(),
            is_direction(d),
    {
        proof {
            use_type_invariant(self);
        }
        self.direction
    }

    /// Turns the ball after a strike on the given side.
    pub fn reflect(&mut self, collision: Collision)
        ensures
            final(self).speed() == old(self).speed(),
            final(self).direction() == reflected(old(self).direction(), collision),
    {
        proof {
            use_type_invariant(&*self);
        }
        let d: Vec2 = self.direction;
        let (reflect_x, reflect_y): (bool, bool) = match collision {
            Collision::Left => (d.x > 0, false),
            Collision::Right => (d.x < 0, false),
            Collision::Top => (false, d.y < 0),
            Collision::Bottom => (false, d.y > 0),
        };
        if reflect_x {
            self.direction = Vec2 { x: -d.x, y: d.y };
        }
        if reflect_y {
            self.direction = Vec2 { x: d.x, y: -d.y };
        }
    }
}

/// Tests every ball against every collider and turns the ball at each strike.
///
/// The colliders are taken in order, and each test sees the direction the
/// previous one left. Positions, sizes and speeds stay as they are.
pub fn ball_collision_system(
    balls: &mut Vec<(Ball, Transform, Sprite)>,
    colliders: &Vec<(Collider, Transform, Sprite)>,
)
    ensures
        final(balls)@.len() == old(balls)@.len(),
        forall|i: int|
            #![trigger final(balls)@[i]]
            0 <= i < old(balls)@.len() ==> {
                let before = old(balls)@[i];
                let after = final(balls)@[i];
                &&& after.1 == before.1
                &&& after.2 == before.2
                &&& after.0.speed() == before.0.speed()
                &&& after.0.direction() == bounced_off_all(
                    before.0.direction(),
                    before.1.translation,
                    before.2.size,
                    colliders@,
                )
            },
{
    let ghost before_all = balls@;
    let mut i: usize = 0;
    while i < balls.len()
        invariant
            i <= balls@.len(),
            balls@.len() == before_all.len(),
            forall|k: int|
                #![trigger balls@[k]]
                i <= k < balls@.len() ==> balls@[k] == before_all[k],
            forall|k: int|
                #![trigger balls@[k]]
                0 <= k < i ==> {
                    let before = before_all[k];
                    let after = balls@[k];
                    &&& after.1 == before.1
                    &&& after.2 == before.2
                    &&& after.0.speed() == before.0.speed()
                    &&& after.0.direction() == bounced_off_all(
                        before.0.direction(),
                        before.1.translation,
                        before.2.size,
                        colliders@,
                    )
                },
        decreases balls@.len() - i,
    {
        let (start, ball_transform, ball_sprite): (Ball, Transform, Sprite) = balls[i];
        let mut ball: Ball = start;
        let mut j: usize = 0;
        while j < colliders.len()
            invariant
                j <= colliders@.len(),
                ball.speed() == start.speed(),
                ball.direction() == bounced_off_all(
                    start.direction(),
                    ball_transform.translation,
                    ball_sprite.size,
                    colliders@.take(j as int),
                ),
            decreases colliders@.len() - j,
        {
            let (_collider, collider_transform, collider_sprite): (Collider, Transform, Sprite) =
                colliders[j];
            let collision: Option<Collision> = collide(
                ball_transform.translation,
                ball_sprite.size,
                collider_transform.translation,
                collider_sprite.size,
            );
            proof {
                let upto = colliders@.take(j as int + 1);
                assert(upto.drop_last() == colliders@.take(j as int));
                assert(upto.last() == colliders@[j as int]);
            }
            match collision {
                Some(collision) => {
                    ball.reflect(collision);
                },
                None => {},
            }
            j += 1;
        }
        proof {
            assert(colliders@.take(colliders@.len() as int) == colliders@);
        }
        balls.set(i, (ball, ball_transform, ball_sprite));
        i += 1;
    }
}

/// One coordinate of the velocity, for a direction coordinate `c` and the
/// direction's squared length.
fn scaled_component(speed: u32, c: i64, length_squared: u128) -> (v: i64)
    requires
        -DIRECTION_LIMIT <= c <= DIRECTION_LIMIT,
        0 < length_squared <= 2 * DIRECTION_LIMIT * DIRECTION_LIMIT,
        c * c <= length_squared,
    ensures
        v == velocity_component(speed as int, c as int, length_squared as int),
        -speed <= v <= speed,
{
    let size: u128 = if c >= 0 {
        c as u128
    } else {
        (-c) as u128
    };
    assert(speed * speed <= 0xffff_ffff * 0xffff_ffff) by (nonlinear_arith)
        requires
            0 <= speed <= 0xffff_ffff,
    ;
    assert(size * size <= 0x7fff_ffff * 0x7fff_ffff) by (nonlinear_arith)
        requires
            0 <= size <= 0x7fff_ffff,
    ;
    let speed_squared: u128 = (speed as u128) * (speed as u128);
    let size_squared: u128 = size * size;
    assert(size_squared == c * c) by (nonlinear_arith)
        requires
            size_squared == size * size,
            size == c || size == -c,
    ;
    assert(speed_squared * size_squared <= 0xffff_ffff_0000_0000_0000_0000_0000_0000)
        by (nonlinear_arith)
        requires
            speed_squared == speed * speed,
            size_squared == size * size,
            0 <= speed <= 0xffff_ffff,
            0 <= size <= 0x7fff_ffff,
    ;
    let quotient: u128 = (speed_squared * size_squared) / length_squared;
    assert(quotient <= speed_squared) by (nonlinear_arith)
        requires
            quotient == (speed_squared * size_squared) / (length_squared as int),
            0 <= size_squared <= length_squared,
            0 < length_squared,
            0 <= speed_squared,
    ;
    assert((speed * speed) * (c * c) == speed_squared * size_squared) by (nonlinear_arith)
        requires
            speed_squared == speed * speed,
            size_squared == c * c,
    ;
    let magnitude: u64 = isqrt(quotient);
    proof {
        lemma_floor_sqrt(quotient as nat);
        assert(magnitude <= speed) by (nonlinear_arith)
            requires
                magnitude * magnitude <= quotient,
                quotient <= speed_squared,
                speed_squared == speed * speed,
                0 <= magnitude,
                0 <= speed,
        ;
    }
    if c >= 0 {
        magnitude as i64
    } else {
        -(magnitude as i64)
    }
}

impl Ball {
    /// The distance the ball covers per second along each axis.
    pub fn velocity(&self) -> (v: Vec2)
        ensures
            v == velocity_of(self.speed(), self.direction()),
            -self.speed() <= v.x <= self.speed(),
            -self.speed() <= v.y <= self.speed(),
    {
        proof {
            use_type_invariant(self);
        }
        let x: i64 = self.direction.x;
        let y: i64 = self.direction.y;
        assert(0 <= x * x <= DIRECTION_LIMIT * DIRECTION_LIMIT) by (nonlinear_arith)
            requires
                -DIRECTION_LIMIT <= x <= DIRECTION_LIMIT,
        ;
        assert(0 <= y * y <= DIRECTION_LIMIT * DIRECTION_LIMIT) by (nonlinear_arith)
            requires
                -DIRECTION_LIMIT <= y <= DIRECTION_LIMIT,
        ;
        assert(x != 0 ==> x * x > 0) by (nonlinear_arith);
        assert(y != 0 ==> y * y > 0) by (nonlinear_arith);
        let length_squared: u128 = (x * x) as u128 + (y * y) as u128;
        Vec2 {
            x: scaled_component(self.speed, x, length_squared),
            y: scaled_component(self.speed, y, length_squared),
        }
    }

    /// Gives the ball the speed that belongs to the surface and keeps its
    /// direction.
    fn resize(&mut self, window: Window)
        ensures
            final(self).speed() == ball_speed(window),
            final(self).direction() == old(self).direction(),
    {
        proof {
            use_type_invariant(&*self);
        }
        self.speed = ((2 * (window.height as u64)) / 3) as u32;
    }
}

impl Default for Ball {
    /// A ball at rest that points up and to the right: the diagonal scaled
    /// to a length of one pixel.
    fn default() -> (ball: Ball)
        ensures
            ball.speed() == 0,
            ball.direction() == (Vec2 { x: 707, y: 707 }),
            ball.direction() == velocity_of(1000, Vec2 { x: 1000, y: 1000 }),
    {
        proof {
            assert(((1000int * 1000) * (1000int * 1000)) / (1000int * 1000 + 1000int * 1000)
                == 500000) by (nonlinear_arith);
            lemma_floor_sqrt(500000);
            lemma_floor_sqrt_unique(707, floor_sqrt(500000) as int, 500000);
        }
        Ball { speed: 0, direction: Vec2 { x: 707, y: 707 } }
    }
}

/// The ball of a new game: at rest, without extent, at the center.
pub fn spawn_ball() -> (entity: (Sprite, Transform, Ball))
    ensures
        entity.0 == (Sprite { size: Vec2::zero() }),
        entity.1 == (Transform { translation: Vec2::zero() }),
        entity.2.speed() == 0,
        entity.2.direction() == (Vec2 { x: 707, y: 707 }),
{
    (Sprite::default(), Transform::default(), Ball::default())
}

/// Resets every ball for the current surface, if a reset was raised this
/// frame: new speed, new size, back to the center, direction kept. However
/// many resets were raised, each ball is reset once.
pub fn ball_resize_system(
    resets: &Vec<Reset>,
    primary_window: Option<Window>,
    balls: &mut Vec<(Sprite, Transform, Ball)>,
)
    requires
        resets@.len() > 0 ==> primary_window is Some,
    ensures
        final(balls)@.len() == old(balls)@.len(),
        resets@.len() == 0 ==> final(balls)@ == old(balls)@,
        resets@.len() > 0 ==> forall|i: int|
            #![trigger final(balls)@[i]]
            0 <= i < old(balls)@.len() ==> ball_reset_to(
                old(balls)@[i],
                final(balls)@[i],
                primary_window->0,
            ),
{
    if resets.len() == 0 {
        return ;
    }
    let window: Window = primary_window.unwrap();
    let ghost before_all = balls@;
    let mut i: usize = 0;
    while i < balls.len()
        invariant
            i <= balls@.len(),
            balls@.len() == before_all.len(),
            forall|k: int|
                #![trigger balls@[k]]
                i <= k < balls@.len() ==> balls@[k] == before_all[k],
            forall|k: int|
                #![trigger balls@[k]]
                0 <= k < i ==> ball_reset_to(before_all[k], balls@[k], window),
        decreases balls@.len() - i,
    {
        let (_sprite, _transform, start): (Sprite, Transform, Ball) = balls[i];
        let mut ball: Ball = start;
        ball.resize(window);
        let ball_width: i64 = (window.height / 20) as i64;
        let sprite = Sprite { size: Vec2 { x: ball_width, y: ball_width } };
        let transform = Transform { translation: Vec2 { x: 0, y: 0 } };
        balls.set(i, (sprite, transform, ball));
        i += 1;
    }
}

/// Whether the ball entity can move for `micros` microseconds and still have
/// coordinates that fit their type.
pub open spec fn ball_can_move(ball: (Ball, Transform), micros: u64) -> bool {
    can_advance(ball.1.translation, velocity_of(ball.0.speed(), ball.0.direction()), micros)
}

/// A ball entity after it moved for `micros` microseconds: the same ball,
/// further along its velocity.
pub open spec fn ball_after_movement(ball: (Ball, Transform), micros: u64) -> (Ball, Transform) {
    (
        ball.0,
        Transform {
            translation: advanced(
                ball.1.translation,
                velocity_of(ball.0.speed(), ball.0.direction()),
                micros,
            ),
        },
    )
}

/// Moves every ball by what its velocity covers in `time_delta` microseconds.
/// Nothing holds the ball back here: walls turn it, they do not stop it.
pub fn ball_movement_system(time_delta: u64, balls: &mut Vec<(Ball, Transform)>)
    requires
        forall|i: int|
            #![trigger old(balls)@[i]]
            0 <= i < old(balls)@.len() ==> ball_can_move(old(balls)@[i], time_delta),
    ensures
        final(balls)@.len() == old(balls)@.len(),
        forall|i: int|
            #![trigger final(balls)@[i]]
            0 <= i < old(balls)@.len() ==> final(balls)@[i] == ball_after_movement(
                old(balls)@[i],
                time_delta,
            ),
{
    let ghost before_all = balls@;
    let mut i: usize = 0;
    while i < balls.len()
        invariant
            i <= balls@.len(),
            balls@.len() == before_all.len(),
            forall|k: int|
                #![trigger before_all[k]]
                0 <= k < before_all.len() ==> ball_can_move(before_all[k], time_delta),
            forall|k: int|
                #![trigger balls@[k]]
                i <= k < balls@.len() ==> balls@[k] == before_all[k],
            forall|k: int|
                #![trigger balls@[k]]
                0 <= k < i ==> balls@[k] == ball_after_movement(before_all[k], time_delta),
        decreases balls@.len() - i,
    {
        let (ball, transform): (Ball, Transform) = balls[i];
        assert(balls@[i as int] == before_all[i as int]);
        let translation: Vec2 = advance(transform.translation, ball.velocity(), time_delta);
        balls.set(i, (ball, Transform { translation }));
        i += 1;
    }
}

/// Moves every ball as [`ball_movement_system`] does, if every ball can move
/// that far; otherwise moves none. Tells whether the balls were moved.
pub fn ball_movement_system_checked(time_delta: u64, balls: &mut Vec<(Ball, Transform)>) -> (moved:
    bool)
    ensures
        final(balls)@.len() == old(balls)@.len(),
        moved <==> forall|i: int|
            #![trigger old(balls)@[i]]
            0 <= i < old(balls)@.len() ==> ball_can_move(old(balls)@[i], time_delta),
        moved ==> forall|i: int|
            #![trigger final(balls)@[i]]
            0 <= i < old(balls)@.len() ==> final(balls)@[i] == ball_after_movement(
                old(balls)@[i],
                time_delta,
            ),
        !moved ==> final(balls)@ == old(balls)@,
{
    let mut i: usize = 0;
    while i < balls.len()
        invariant
            i <= balls@.len(),
            balls@ == old(balls)@,
            forall|k: int|
                #![trigger balls@[k]]
                0 <= k < i ==> ball_can_move(balls@[k], time_delta),
        decreases balls@.len() - i,
    {
        let (ball, transform): (Ball, Transform) = balls[i];
        if !fits_after(transform.translation, ball.velocity(), time_delta) {
            assert(!ball_can_move(old(balls)@[i as int], time_delta));
            return false;
        }
        i += 1;
    }
    ball_movement_system(time_delta, balls);
    true
}

/// Velocity is the direction brought to the length `speed`, each coordinate
/// cut off toward zero: a coordinate has the sign of the direction's, its
/// magnitude is at most `speed`, and it is the largest whole number whose
/// ratio to `speed` does not exceed the ratio of the direction's coordinate
/// to the direction's length.
pub proof fn lemma_velocity_component(speed: int, c: int, length_squared: int)
    requires
        0 <= speed,
        0 < length_squared,
        c * c <= length_squared,
    ensures
        ({
            let v = velocity_component(speed, c, length_squared);
            let m = if v >= 0 {
                v
            } else {
                -v
            };
            &&& c >= 0 ==> v >= 0
            &&& c <= 0 ==> v <= 0
            &&& m <= speed
            &&& (m * m) * length_squared <= (speed * speed) * (c * c)
            &&& (speed * speed) * (c * c) < ((m + 1) * (m + 1)) * length_squared
        }),
{
    let product = (speed * speed) * (c * c);
    assert(0 <= c * c && 0 <= product && (c == 0 ==> product == 0)) by (nonlinear_arith)
        requires
            product == (speed * speed) * (c * c),
    ;
    let quotient = product / length_squared;
    let m = floor_sqrt(quotient as nat) as int;
    assert(0 <= quotient && quotient * length_squared <= product && product < (quotient + 1)
        * length_squared && quotient <= speed * speed) by (nonlinear_arith)
        requires
            quotient == product / length_squared,
            product == (speed * speed) * (c * c),
            0 <= c * c <= length_squared,
            0 < length_squared,
            0 <= product,
    ;
    lemma_floor_sqrt(quotient as nat);
    assert(m <= speed && (quotient == 0 ==> m == 0)) by (nonlinear_arith)
        requires
            m * m <= quotient,
            quotient <= speed * speed,
            0 <= m,
            0 <= speed,
    ;
    assert((m * m) * length_squared <= product) by (nonlinear_arith)
        requires
            m * m <= quotient,
            quotient * length_squared <= product,
            0 < length_squared,
    ;
    assert(product < ((m + 1) * (m + 1)) * length_squared) by (nonlinear_arith)
        requires
            quotient + 1 <= (m + 1) * (m + 1),
            product < (quotient + 1) * length_squared,
            0 < length_squared,
    ;
}

/// Resetting a ball twice for the same surface gives what resetting it once
/// gives: the second reset finds size, place and speed as it would set them,
/// and leaves the direction alone as the first did.
pub proof fn lemma_ball_reset_idempotent(
    before: (Sprite, Transform, Ball),
    once: (Sprite, Transform, Ball),
    twice: (Sprite, Transform, Ball),
    window: Window,
)
    requires
        ball_reset_to(before, once, window),
        ball_reset_to(once, twice, window),
    ensures
        twice == once,
{
}

} // verus!
