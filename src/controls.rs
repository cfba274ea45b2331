use vstd::prelude::*;
use crate::components::{Gun, Thruster, clamp_i64};

verus! {

/// Milliseconds between two shots.
pub const GUN_TIME: i64 = 200;

/// Milliseconds of thrust between two exhaust puffs.
pub const THRUSTER_TIME: u64 = 50;

/// Turning speed in thousandths of a radian per second.
pub const TURN_RATE: i64 = 5000;

/// Thrust impulse per millisecond held, per thousandth of direction.
pub const THRUST_PER_MS: i64 = 100;

/// The keys that the controls are bound to.
#[derive(Clone, Copy, Debug, PartialEq, Eq, Structural)]
pub enum Key {
    ArrowUp,
    ArrowLeft,
    ArrowRight,
    Space,
    KeyW,
    KeyA,
    KeyD,
    KeyS,
    KeyQ,
}

/// The keys of one player.
#[derive(Clone, Copy, Debug, PartialEq, Eq, Structural)]
pub struct KeyConfig {
    pub thrust: Key,
    pub left: Key,
    pub right: Key,
    pub shoot: Key,
    pub player: u8,
}

/// The key that ends the match.
pub const QUIT_KEY: Key = Key::KeyQ;

pub open spec fn first_player_keys() -> KeyConfig {
    KeyConfig {
        player: 0,
        thrust: Key::ArrowUp,
        left: Key::ArrowLeft,
        right: Key::ArrowRight,
        shoot: Key::Space,
    }
}

pub open spec fn second_player_keys() -> KeyConfig {
    KeyConfig { player: 1, thrust: Key::KeyW, left: Key::KeyA, right: Key::KeyD, shoot: Key::KeyS }
}

/// The bindings of both players: arrows and space for the first, W A D S
/// for the second.
pub fn steering_config() -> (r: Vec<KeyConfig>)
    ensures
        r@ == seq![first_player_keys(), second_player_keys()],
{
    let mut r: Vec<KeyConfig> = Vec::new();
    r.push(
        KeyConfig {
            player: 0,
            thrust: Key::ArrowUp,
            left: Key::ArrowLeft,
            right: Key::ArrowRight,
            shoot: Key::Space,
        },
    );
    r.push(
        KeyConfig { player: 1, thrust: Key::KeyW, left: Key::KeyA, right: Key::KeyD, shoot: Key::KeyS },
    );
    assert(r@ =~= seq![first_player_keys(), second_player_keys()]);
    r
}

/// The bindings of a player, if that player has any.
pub fn get_key_config_for(player: u8) -> (r: Option<KeyConfig>)
    ensures
        r == if player == 0 {
            Some(first_player_keys())
        } else if player == 1 {
            Some(second_player_keys())
        } else {
            None
        },
{
    let table = steering_config();
    let n = table.len();
    for i in 0..n
        invariant
            n == table.len(),
            table@ == seq![first_player_keys(), second_player_keys()],
            forall|k: int| 0 <= k < i ==> table@[k].player != player,
    {
        if table[i].player == player {
            return Some(table[i]);
        }
    }
    None
}

/// Which of a player's controls are held this tick.
#[derive(Clone, Copy, Debug, PartialEq, Eq, Structural)]
pub struct Held {
    pub thrust: bool,
    pub left: bool,
    pub right: bool,
    pub shoot: bool,
}

pub open spec fn held_of(config: KeyConfig, pressed: Seq<Key>) -> Held {
    Held {
        thrust: pressed.contains(config.thrust),
        left: pressed.contains(config.left),
        right: pressed.contains(config.right),
        shoot: pressed.contains(config.shoot),
    }
}

fn is_pressed(pressed: &Vec<Key>, key: Key) -> (r: bool)
    ensures
        r == pressed@.contains(key),
{
    let n = pressed.len();
    for i in 0..n
        invariant
            n == pressed.len(),
            forall|k: int| 0 <= k < i ==> pressed@[k] != key,
    {
        if pressed[i] == key {
            return true;
        }
    }
    false
}

/// The controls of a player that the pressed keys hold.
pub fn held_controls(config: &KeyConfig, pressed: &Vec<Key>) -> (r: Held)
    ensures
        r == held_of(*config, pressed@),
{
    Held {
        thrust: is_pressed(pressed, config.thrust),
        left: is_pressed(pressed, config.left),
        right: is_pressed(pressed, config.right),
        shoot: is_pressed(pressed, config.shoot),
    }
}

/// Whether the quit key is pressed.
pub fn quit_requested(pressed: &Vec<Key>) -> (r: bool)
    ensures
        r == pressed@.contains(QUIT_KEY),
{
    is_pressed(pressed, QUIT_KEY)
}

/// What a ship does in one tick.
#[derive(Clone, Copy, Debug, PartialEq, Eq, Structural)]
pub struct ShipAction {
    /// A projectile leaves the nose.
    pub fire: bool,
    /// A forward impulse is applied.
    pub thrust: bool,
    /// An exhaust puff leaves the tail.
    pub exhaust: bool,
    /// The angular velocity for this tick, in thousandths of a radian per second.
    pub angvel: i64,
}

/// Gun timer after `dt` milliseconds, before any shot.
pub open spec fn gun_ticked(time: int, dt: int) -> int {
    clamp_i64(time - dt)
}

/// The gun fires when the trigger is held and its timer has gone below zero.
pub open spec fn fires(time: int, dt: int, shoot: bool) -> bool {
    shoot && gun_ticked(time, dt) < 0
}

/// Gun timer at the end of the tick.
pub open spec fn gun_after(time: int, dt: int, shoot: bool) -> int {
    if fires(time, dt, shoot) { GUN_TIME as int } else { gun_ticked(time, dt) }
}

/// Thrust time accumulated after `dt` milliseconds of thrust.
pub open spec fn thrust_ticked(t: int, dt: int) -> int {
    if t + dt > u64::MAX { u64::MAX as int } else { t + dt }
}

/// A puff leaves once the accumulated thrust time passes `THRUSTER_TIME`.
pub open spec fn puffs_out(t: int, dt: int, thrust: bool) -> bool {
    thrust && thrust_ticked(t, dt) > THRUSTER_TIME
}

pub open spec fn thruster_after(t: int, dt: int, thrust: bool) -> int {
    if !thrust {
        t
    } else if puffs_out(t, dt, thrust) {
        thrust_ticked(t, dt) - THRUSTER_TIME
    } else {
        thrust_ticked(t, dt)
    }
}

/// Angular velocity: left turns one way, else right the other, else none.
pub open spec fn angvel_of(held: Held) -> int {
    if held.left { TURN_RATE as int } else if held.right { -TURN_RATE } else { 0 }
}

/// Gun timer after a run of ticks of the given lengths with the trigger held.
pub open spec fn gun_run(time: int, dts: Seq<int>) -> int
    decreases dts.len(),
{
    if dts.len() == 0 {
        time
    } else {
        gun_after(gun_run(time, dts.drop_last()), dts.last(), true)
    }
}

/// Shots fired over a run of ticks of the given lengths with the trigger held.
pub open spec fn shots_in(time: int, dts: Seq<int>) -> nat
    decreases dts.len(),
{
    if dts.len() == 0 {
        0
    } else {
        shots_in(time, dts.drop_last()) + if fires(gun_run(time, dts.drop_last()), dts.last(), true) {
            1nat
        } else {
            0nat
        }
    }
}

/// Total length of a run of ticks.
pub open spec fn elapsed(dts: Seq<int>) -> int
    decreases dts.len(),
{
    if dts.len() == 0 {
        0
    } else {
        elapsed(dts.drop_last()) + dts.last()
    }
}

/// Once the gun has fired (its timer reset to `GUN_TIME`), holding the
/// trigger fires nothing more until over `GUN_TIME` milliseconds have
/// passed: shots of one ship are more than `GUN_TIME` apart.
pub proof fn lemma_cooldown_spacing(dts: Seq<int>)
    requires
        forall|k: int| 0 <= k < dts.len() ==> 0 <= #[trigger] dts[k],
        elapsed(dts) <= GUN_TIME,
    ensures
        shots_in(GUN_TIME as int, dts) == 0,
        gun_run(GUN_TIME as int, dts) == GUN_TIME - elapsed(dts),
    decreases dts.len(),
{
    if dts.len() > 0 {
        let rest = dts.drop_last();
        assert forall|k: int| 0 <= k < rest.len() implies 0 <= #[trigger] rest[k] by {
            assert(rest[k] == dts[k]);
        }
        assert(dts.last() == dts[dts.len() - 1]);
        lemma_cooldown_spacing(rest);
    }
}

/// One tick of a ship's controls over `dt` milliseconds: the gun's cooldown
/// runs down and it fires when ready and held, thrust accumulates toward the
/// next exhaust puff, and the turn keys set the rotation.
pub fn steer(gun: &mut Gun, thruster: &mut Thruster, held: Held, dt: u64) -> (r: ShipAction)
    ensures
        r.fire == fires(old(gun).time as int, dt as int, held.shoot),
        final(gun).time == gun_after(old(gun).time as int, dt as int, held.shoot),
        r.thrust == held.thrust,
        r.exhaust == puffs_out(old(thruster).thruster_time as int, dt as int, held.thrust),
        final(thruster).thruster_time == thruster_after(
            old(thruster).thruster_time as int,
            dt as int,
            held.thrust,
        ),
        r.angvel == angvel_of(held),
{
    let t: i128 = gun.time as i128 - dt as i128;
    gun.time = if t < i64::MIN as i128 {
        i64::MIN
    } else {
        t as i64
    };
    let fire = held.shoot && gun.time < 0;
    if fire {
        gun.time = GUN_TIME;
    }
    let mut exhaust = false;
    if held.thrust {
        thruster.thruster_time = thruster.thruster_time.saturating_add(dt);
        if thruster.thruster_time > THRUSTER_TIME {
            thruster.thruster_time = thruster.thruster_time - THRUSTER_TIME;
            exhaust = true;
        }
    }
    let angvel = if held.left {
        TURN_RATE
    } else if held.right {
        -TURN_RATE
    } else {
        0
    };
    ShipAction { fire, thrust: held.thrust, exhaust, angvel }
}

} // verus!
