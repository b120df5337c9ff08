//! Plain vectors and the two geometric components every visible entity has.
use vstd::prelude::*;

verus! {

/// Number of length units in one pixel.
pub const UNIT: i64 = 1000;

/// Number of microseconds in one second.
pub const MICROS_PER_SECOND: u64 = 1_000_000;

/// A pair of coordinates, or of extents, in length units.
#[derive(Clone, Copy, Debug, PartialEq, Eq, Structural)]
pub struct Vec2 {
    pub x: i64,
    pub y: i64,
}

impl Vec2 {
    /// The vector with both coordinates zero: the center of the surface.
    pub open spec fn zero() -> Vec2 {
        Vec2 { x: 0, y: 0 }
    }

    pub fn new(x: i64, y: i64) -> (v: Vec2)
        ensures
            v == (Vec2 { x, y }),
    {
        Vec2 { x, y }
    }
}

impl Default for Vec2 {
    fn default() -> (v: Vec2)
        ensures
            v == Vec2::zero(),
    {
        Vec2 { x: 0, y: 0 }
    }
}

/// The full width and height of an entity's box.
#[derive(Clone, Copy, Debug, PartialEq, Eq, Structural)]
pub struct Sprite {
    pub size: Vec2,
}

impl Default for Sprite {
    fn default() -> (s: Sprite)
        ensures
            s.size == Vec2::zero(),
    {
        Sprite { size: Vec2 { x: 0, y: 0 } }
    }
}

/// The center of an entity's box, relative to the center of the surface.
#[derive(Clone, Copy, Debug, PartialEq, Eq, Structural)]
pub struct Transform {
    pub translation: Vec2,
}

impl Default for Transform {
    fn default() -> (t: Transform)
        ensures
            t.translation == Vec2::zero(),
    {
        Transform { translation: Vec2 { x: 0, y: 0 } }
    }
}

/// Whether `r` is the square root of `n` rounded down.
pub open spec fn is_floor_sqrt(r: int, n: int) -> bool {
    0 <= r && r * r <= n < (r + 1) * (r + 1)
}

/// The square root of `n`, rounded down.
pub open spec fn floor_sqrt(n: nat) -> nat {
    choose|r: nat| is_floor_sqrt(r as int, n as int)
}

proof fn lemma_floor_sqrt_exists(n: nat) -> (r: nat)
    ensures
        is_floor_sqrt(r as int, n as int),
    decreases n,
{
    if n == 0 {
        0
    } else {
        let below = lemma_floor_sqrt_exists((n - 1) as nat);
        let b = below as int;
        if (b + 1) * (b + 1) <= n {
            assert((b + 1) * (b + 1) < (b + 1 + 1) * (b + 1 + 1)) by (nonlinear_arith)
                requires
                    0 <= b,
            ;
            below + 1
        } else {
            below
        }
    }
}

/// At most one number is the rounded-down square root of `n`.
pub proof fn lemma_floor_sqrt_unique(a: int, b: int, n: int)
    requires
        is_floor_sqrt(a, n),
        is_floor_sqrt(b, n),
    ensures
        a == b,
{
    if a < b {
        assert((a + 1) * (a + 1) <= b * b) by (nonlinear_arith)
            requires
                0 <= a,
                a + 1 <= b,
        ;
    }
    if b < a {
        assert((b + 1) * (b + 1) <= a * a) by (nonlinear_arith)
            requires
                0 <= b,
                b + 1 <= a,
        ;
    }
}

/// `floor_sqrt(n)` is the one number whose square is at most `n` while the
/// square of the next number is more than `n`.
pub proof fn lemma_floor_sqrt(n: nat)
    ensures
        is_floor_sqrt(floor_sqrt(n) as int, n as int),
{
    let r = lemma_floor_sqrt_exists(n);
    assert(is_floor_sqrt(r as int, n as int));
}

/// The square root of `n`, rounded down.
pub fn isqrt(n: u128) -> (r: u64)
    ensures
        r == floor_sqrt(n as nat),
{
    let mut low: u128 = 0;
    let mut high: u128 = 0x1_0000_0000_0000_0000;
    assert(n < high * high) by (nonlinear_arith)
        requires
            high == 0x1_0000_0000_0000_0000,
            n <= u128::MAX,
    ;
    while high - low > 1
        invariant
            low < high <= 0x1_0000_0000_0000_0000,
            low * low <= n < high * high,
        decreases high - low,
    {
        let middle: u128 = low + (high - low) / 2;
        assert(middle * middle <= 0xffff_ffff_ffff_ffff * 0xffff_ffff_ffff_ffff)
            by (nonlinear_arith)
            requires
                0 <= middle <= 0xffff_ffff_ffff_ffff,
        ;
        if middle * middle <= n {
            low = middle;
        } else {
            high = middle;
        }
    }
    proof {
        lemma_floor_sqrt(n as nat);
        lemma_floor_sqrt_unique(low as int, floor_sqrt(n as nat) as int, n as int);
    }
    low as u64
}

/// How far something moving at `velocity` units per second gets in `micros`
/// microseconds, in whole units, rounded toward zero.
pub open spec fn displacement(velocity: int, micros: int) -> int {
    if velocity >= 0 {
        (velocity * micros) / (MICROS_PER_SECOND as int)
    } else {
        -(((-velocity) * micros) / (MICROS_PER_SECOND as int))
    }
}

/// [`displacement`], computed without loss.
pub fn travel(velocity: i64, micros: u64) -> (distance: i128)
    ensures
        distance == displacement(velocity as int, micros as int),
        velocity >= 0 ==> 0 <= distance <= velocity * micros,
        velocity <= 0 ==> velocity * micros <= distance <= 0,
{
    let magnitude: u128 = if velocity >= 0 {
        velocity as u128
    } else {
        (-(velocity as i128)) as u128
    };
    assert(magnitude * micros <= 0x8000_0000_0000_0000 * 0xffff_ffff_ffff_ffff)
        by (nonlinear_arith)
        requires
            0 <= magnitude <= 0x8000_0000_0000_0000,
            0 <= micros <= 0xffff_ffff_ffff_ffff,
    ;
    let whole: u128 = (magnitude * (micros as u128)) / (MICROS_PER_SECOND as u128);
    assert(velocity >= 0 ==> magnitude * micros == velocity * micros);
    assert(velocity == 0 ==> velocity * micros == 0) by (nonlinear_arith);
    assert(velocity < 0 ==> magnitude * micros == -(velocity * micros)) by (nonlinear_arith)
        requires
            velocity < 0 ==> magnitude == -velocity,
    ;
    if velocity >= 0 {
        whole as i128
    } else {
        -(whole as i128)
    }
}

/// Whether a point at `pos` can move at `velocity` for `micros` microseconds
/// and still have coordinates that fit their type.
pub open spec fn can_advance(pos: Vec2, velocity: Vec2, micros: u64) -> bool {
    &&& i64::MIN <= pos.x + displacement(velocity.x as int, micros as int) <= i64::MAX
    &&& i64::MIN <= pos.y + displacement(velocity.y as int, micros as int) <= i64::MAX
}

/// Where a point at `pos` is after moving at `velocity` for `micros`
/// microseconds.
pub open spec fn advanced(pos: Vec2, velocity: Vec2, micros: u64) -> Vec2 {
    Vec2 {
        x: (pos.x + displacement(velocity.x as int, micros as int)) as i64,
        y: (pos.y + displacement(velocity.y as int, micros as int)) as i64,
    }
}

/// Tells whether a point at `pos` can move at `velocity` for `micros`
/// microseconds and still have coordinates that fit their type.
pub fn fits_after(pos: Vec2, velocity: Vec2, micros: u64) -> (fits: bool)
    ensures
        fits == can_advance(pos, velocity, micros),
{
    let dx: i128 = travel(velocity.x, micros);
    let dy: i128 = travel(velocity.y, micros);
    assert(-0x8000_0000_0000_0000 * 0xffff_ffff_ffff_ffff <= velocity.x * micros
        <= 0x8000_0000_0000_0000 * 0xffff_ffff_ffff_ffff) by (nonlinear_arith)
        requires
            -0x8000_0000_0000_0000 <= velocity.x <= 0x8000_0000_0000_0000,
            0 <= micros <= 0xffff_ffff_ffff_ffff,
    ;
    assert(-0x8000_0000_0000_0000 * 0xffff_ffff_ffff_ffff <= velocity.y * micros
        <= 0x8000_0000_0000_0000 * 0xffff_ffff_ffff_ffff) by (nonlinear_arith)
        requires
            -0x8000_0000_0000_0000 <= velocity.y <= 0x8000_0000_0000_0000,
            0 <= micros <= 0xffff_ffff_ffff_ffff,
    ;
    let x: i128 = pos.x as i128 + dx;
    let y: i128 = pos.y as i128 + dy;
    i64::MIN as i128 <= x && x <= i64::MAX as i128 && i64::MIN as i128 <= y && y <= i64::MAX as i128
}

/// Moves a point at `pos` at `velocity` for `micros` microseconds.
pub fn advance(pos: Vec2, velocity: Vec2, micros: u64) -> (there: Vec2)
    requires
        can_advance(pos, velocity, micros),
    ensures
        there == advanced(pos, velocity, micros),
{
    let x: i128 = pos.x as i128 + travel(velocity.x, micros);
    let y: i128 = pos.y as i128 + travel(velocity.y, micros);
    Vec2 { x: x as i64, y: y as i64 }
}

} // verus!
