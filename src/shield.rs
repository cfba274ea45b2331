use vstd::prelude::*;
use crate::components::{
    Shield, Position, ENERGY_FULL, HEAL_PER_MS, CONTACT_DAMAGE, UNIT, clamp_i32, clamp_i64,
    add_clamped_i32,
};

verus! {

/// Energy after one regeneration tick of `dt` milliseconds: an exhausted
/// (negative) shield is left as it is; any other gains `HEAL_PER_MS` per
/// millisecond, up to a full shield.
pub open spec fn regenerated(energy: int, dt: int) -> int {
    if energy < 0 {
        energy
    } else if energy + HEAL_PER_MS * dt > ENERGY_FULL {
        ENERGY_FULL as int
    } else {
        energy + HEAL_PER_MS * dt
    }
}

/// Energy after `n` regeneration ticks of `dt` milliseconds each.
pub open spec fn regenerated_n(energy: int, dt: int, n: nat) -> int
    decreases n,
{
    if n == 0 {
        energy
    } else {
        regenerated(regenerated_n(energy, dt, (n - 1) as nat), dt)
    }
}

/// Energy after one contact.
pub open spec fn damaged(energy: int) -> int {
    clamp_i64(energy - CONTACT_DAMAGE)
}

/// Whole percent shown for an energy: floor(100 * energy).
pub open spec fn percent_of(energy: int) -> int {
    energy / (ENERGY_FULL / 100)
}

/// Visual intensity of a shield: its energy, limited to `[0, ENERGY_FULL]`.
pub open spec fn alpha_of(energy: int) -> int {
    if energy < 0 { 0 } else if energy > ENERGY_FULL { ENERGY_FULL as int } else { energy }
}

/// Offset of a ship's energy label from the ship, in thousandths of a pixel.
pub const DISPLAY_OFFSET_X: i64 = -20 * UNIT;
pub const DISPLAY_OFFSET_Y: i64 = 30 * UNIT;

/// What becomes of an energy label in one tick.
#[derive(Clone, Copy, Debug, PartialEq, Eq, Structural)]
pub struct DisplayUpdate {
    /// The label is to be removed: the shield it shows is exhausted.
    pub remove: bool,
    /// Where the label now stands.
    pub position: Position,
    /// The whole percent that it shows.
    pub percent: i64,
}

impl Shield {
    /// A shield is exhausted once its energy is below zero.
    pub fn is_exhausted(&self) -> (r: bool)
        ensures
            r == (self.energy < 0),
    {
        self.energy < 0
    }

    /// Passive recovery over `dt` milliseconds.
    pub fn load_shield(&mut self, dt: u64)
        ensures
            final(self).energy == regenerated(old(self).energy as int, dt as int),
    {
        if self.energy >= 0 {
            let heal: i128 = HEAL_PER_MS as i128;
            let d: i128 = dt as i128;
            assert(0 <= heal * d <= 200 * (u64::MAX as int)) by (nonlinear_arith)
                requires heal == 200, 0 <= d <= u64::MAX;
            let e: i128 = self.energy as i128 + heal * d;
            if e > ENERGY_FULL as i128 {
                self.energy = ENERGY_FULL;
            } else {
                self.energy = e as i64;
            }
        }
    }

    /// Takes one contact's damage; returns whether the shield is now exhausted.
    pub fn take_hit(&mut self) -> (exhausted: bool)
        ensures
            final(self).energy == damaged(old(self).energy as int),
            exhausted == (final(self).energy < 0),
    {
        let e: i128 = self.energy as i128 - CONTACT_DAMAGE as i128;
        if e < i64::MIN as i128 {
            self.energy = i64::MIN;
        } else {
            self.energy = e as i64;
        }
        self.energy < 0
    }

    /// Copies the energy of the shield that this one mirrors.
    pub fn copy_shield_value(&mut self, owner: &Shield)
        ensures
            final(self).energy == owner.energy,
    {
        self.energy = owner.energy;
    }

    /// Visual intensity derived from the energy, in millionths.
    pub fn alpha(&self) -> (r: i64)
        ensures
            r == alpha_of(self.energy as int),
    {
        if self.energy < 0 {
            0
        } else if self.energy > ENERGY_FULL {
            ENERGY_FULL
        } else {
            self.energy
        }
    }

    /// Whole percent of a full shield, rounded down.
    pub fn percent(&self) -> (r: i64)
        ensures
            r == percent_of(self.energy as int),
    {
        let step: i64 = ENERGY_FULL / 100;
        let q = self.energy / step;
        if self.energy % step != 0 && self.energy < 0 {
            q - 1
        } else {
            q
        }
    }
}

/// Places a ship's energy label next to the ship and says what it shows;
/// the label goes once the shield is exhausted.
pub fn arrange_energy_display(ship: Position, shield: &Shield) -> (r: DisplayUpdate)
    ensures
        r.remove == (shield.energy < 0),
        r.position.x == clamp_i32(ship.x + DISPLAY_OFFSET_X),
        r.position.y == clamp_i32(ship.y + DISPLAY_OFFSET_Y),
        r.percent == percent_of(shield.energy as int),
{
    DisplayUpdate {
        remove: shield.is_exhausted(),
        position: Position {
            x: add_clamped_i32(ship.x, DISPLAY_OFFSET_X),
            y: add_clamped_i32(ship.y, DISPLAY_OFFSET_Y),
        },
        percent: shield.percent(),
    }
}

/// Regeneration never lifts a shield above full.
pub proof fn lemma_regenerated_at_most_full(energy: int, dt: int)
    requires
        energy <= ENERGY_FULL,
        dt >= 0,
    ensures
        regenerated(energy, dt) <= ENERGY_FULL,
{
}

/// After `n` undamaged ticks of `dt` milliseconds, a shield that started at
/// `energy` in `[0, ENERGY_FULL]` holds `min(ENERGY_FULL, energy + HEAL_PER_MS * n * dt)`,
/// and never more than a full shield.
pub proof fn lemma_regeneration_ticks(energy: int, dt: int, n: nat)
    requires
        0 <= energy <= ENERGY_FULL,
        dt >= 0,
    ensures
        regenerated_n(energy, dt, n) == if energy + HEAL_PER_MS * n * dt > ENERGY_FULL {
            ENERGY_FULL as int
        } else {
            energy + HEAL_PER_MS * n * dt
        },
        regenerated_n(energy, dt, n) <= ENERGY_FULL,
    decreases n,
{
    if n > 0 {
        lemma_regeneration_ticks(energy, dt, (n - 1) as nat);
        assert(HEAL_PER_MS * n * dt == HEAL_PER_MS * (n - 1) * dt + HEAL_PER_MS * dt)
            by (nonlinear_arith);
        assert(HEAL_PER_MS * (n - 1) * dt >= 0) by (nonlinear_arith)
            requires n >= 1, dt >= 0;
    }
}

} // verus!
