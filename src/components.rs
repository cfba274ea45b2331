use vstd::prelude::*;

verus! {

/// One full shield, in millionths.
pub const ENERGY_FULL: i64 = 1_000_000;

/// Energy regained per millisecond by a shield that is not exhausted (0.2 per second).
pub const HEAL_PER_MS: i64 = 200;

/// Energy that one contact takes from each shielded body in it.
pub const CONTACT_DAMAGE: i64 = 200_000;

/// Starting energy of an asteroid's shield.
pub const ASTEROID_ENERGY: i64 = 100_000;

/// Fixed-point unit of lengths, directions and scales: one pixel, or 1.0.
pub const UNIT: i64 = 1000;

/// Half the width of the square arena, in thousandths of a pixel.
pub const SPACE_HALF: i32 = 400_000;

/// Asteroids split only while their scale (in thousandths) is above this.
pub const ASTEROID_MIN_SCALE: u32 = 1000;

/// Scale of the asteroids placed at the start of a match.
pub const ASTEROID_START_SCALE: u32 = 4000;

/// Asteroids that replace one split asteroid, and puffs left by any destroyed body.
pub const SPLIT_COUNT: usize = 4;
pub const PUFF_COUNT: usize = 4;

/// Each coordinate of a split asteroid's offset from its parent lies in `[0, ASTEROID_JITTER)`.
pub const ASTEROID_JITTER: i64 = 20_000;

/// Speeds in pixels per second; times a `Direction` they give a velocity.
pub const DEBRIS_SPEED: i64 = 50;
pub const SHOT_SPEED: i64 = 400;
pub const THRUSTER_SPEED: i64 = 200;

/// Milliseconds that a projectile and an exhaust or debris puff last.
pub const GUN_LIFETIME: u64 = 1000;
pub const THRUSTER_LIFETIME: u64 = 500;

/// Marks a transient body: a projectile or an exhaust puff.
#[derive(Clone, Copy, Debug, PartialEq, Eq, Structural)]
pub struct Debris;

/// A label that follows the ship with the given id and shows its energy.
#[derive(Clone, Copy, Debug, PartialEq, Eq, Structural)]
pub struct EnergyDisplay {
    pub ship: u64,
}

/// Marks a splittable asteroid.
#[derive(Clone, Copy, Debug, PartialEq, Eq, Structural)]
pub struct Asteroid;

/// A player's ship.
#[derive(Clone, Copy, Debug, PartialEq, Eq, Structural)]
pub struct Ship {
    pub player: u8,
}

/// A heavy body with no further behaviour.
#[derive(Clone, Copy, Debug, PartialEq, Eq, Structural)]
pub struct Moon {}

/// Damage absorption, in millionths: full at `ENERGY_FULL`, exhausted below zero.
#[derive(Clone, Copy, Debug, PartialEq, Eq, Structural)]
pub struct Shield {
    pub energy: i64,
}

/// Milliseconds of thrust accumulated since the last exhaust puff.
#[derive(Clone, Copy, Debug, PartialEq, Eq, Structural)]
pub struct Thruster {
    pub thruster_time: u64,
}

/// Milliseconds until the weapon is ready; it is ready once this is negative.
#[derive(Clone, Copy, Debug, PartialEq, Eq, Structural)]
pub struct Gun {
    pub time: i64,
}

/// The simulation time, in milliseconds, at which a transient body is removed.
#[derive(Clone, Copy, Debug, PartialEq, Eq, Structural)]
pub struct Lifetime {
    pub death: u64,
}

/// A position in the arena, in thousandths of a pixel.
#[derive(Clone, Copy, Debug, PartialEq, Eq, Structural)]
pub struct Position {
    pub x: i32,
    pub y: i32,
}

/// A linear velocity or impulse, in thousandths of a pixel per second.
#[derive(Clone, Copy, Debug, PartialEq, Eq, Structural)]
pub struct Velocity {
    pub x: i64,
    pub y: i64,
}

/// A direction as a unit vector in thousandths: each component lies in
/// `[-UNIT, UNIT]` and the length is `UNIT` to within one thousandth.
#[derive(Clone, Copy, Debug, PartialEq, Eq, Structural)]
pub struct Direction {
    pub x: i64,
    pub y: i64,
}

impl Direction {
    pub open spec fn valid(self) -> bool {
        &&& -UNIT <= self.x <= UNIT
        &&& -UNIT <= self.y <= UNIT
        &&& (UNIT - 1) * (UNIT - 1) <= self.x * self.x + self.y * self.y <= (UNIT + 1) * (UNIT + 1)
    }
}

/// `v + d * speed`, limited to the range of `i64`: a velocity pushed along a direction.
pub open spec fn launched(v: int, d: int, speed: int) -> int {
    clamp_i64(v + d * speed)
}

/// `v` limited to the range of `i32`.
pub open spec fn clamp_i32(v: int) -> int {
    if v < i32::MIN { i32::MIN as int } else if v > i32::MAX { i32::MAX as int } else { v }
}

/// `v` limited to the range of `i64`.
pub open spec fn clamp_i64(v: int) -> int {
    if v < i64::MIN { i64::MIN as int } else if v > i64::MAX { i64::MAX as int } else { v }
}

/// `a + b`, saturating at the bounds of `i32`.
pub fn add_clamped_i32(a: i32, b: i64) -> (r: i32)
    ensures
        r == clamp_i32(a + b),
{
    let s: i128 = a as i128 + b as i128;
    if s < i32::MIN as i128 {
        i32::MIN
    } else if s > i32::MAX as i128 {
        i32::MAX
    } else {
        s as i32
    }
}

/// `a + b`, saturating at the bounds of `i64`.
pub fn add_clamped_i64(a: i64, b: i64) -> (r: i64)
    ensures
        r == clamp_i64(a + b),
{
    let s: i128 = a as i128 + b as i128;
    if s < i64::MIN as i128 {
        i64::MIN
    } else if s > i64::MAX as i128 {
        i64::MAX
    } else {
        s as i64
    }
}

/// `v + d * speed`, saturating at the bounds of `i64`.
pub fn launch(v: i64, d: i64, speed: i64) -> (r: i64)
    requires
        -UNIT <= d <= UNIT,
        0 <= speed <= 1_000_000,
    ensures
        r == launched(v as int, d as int, speed as int),
{
    assert(-1_000_000_000 <= d * speed <= 1_000_000_000) by (nonlinear_arith)
        requires -1000 <= d <= 1000, 0 <= speed <= 1_000_000;
    add_clamped_i64(v, d * speed)
}

impl Velocity {
    /// This velocity pushed along `d` at `speed` pixels per second.
    pub fn launched(self, d: Direction, speed: i64) -> (r: Velocity)
        requires
            d.valid(),
            0 <= speed <= 1_000_000,
        ensures
            r.x == launched(self.x as int, d.x as int, speed as int),
            r.y == launched(self.y as int, d.y as int, speed as int),
    {
        Velocity { x: launch(self.x, d.x, speed), y: launch(self.y, d.y, speed) }
    }
}

} // verus!
