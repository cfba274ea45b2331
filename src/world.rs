use vstd::prelude::*;
use crate::components::{
    Asteroid, Debris, Direction, EnergyDisplay, Gun, Lifetime, Moon, Position, Shield, Ship, Thruster, Velocity,
    ASTEROID_ENERGY, ASTEROID_MIN_SCALE, DEBRIS_SPEED, GUN_LIFETIME, PUFF_COUNT, SHOT_SPEED,
    SPACE_HALF, SPLIT_COUNT, THRUSTER_LIFETIME, THRUSTER_SPEED, UNIT, add_clamped_i32, clamp_i32,
    clamp_i64, launched,
};
use crate::controls::{
    Key, KeyConfig, THRUST_PER_MS, angvel_of, fires, get_key_config_for, gun_after,
    held_controls, held_of, puffs_out, steer, thruster_after,
};
use crate::shield::{damaged, regenerated};
use crate::topology::{warp_space, wrapped};

verus! {

/// What a body is, with the state that only that kind carries.
#[derive(Clone, Copy, Debug, PartialEq, Eq, Structural)]
pub enum Kind {
    Ship { ship: Ship, gun: Gun, thruster: Thruster },
    Asteroid(Asteroid),
    Debris(Debris),
    Moon(Moon),
    /// The visible shield of the ship with this id; it mirrors that ship's energy.
    Mirror { owner: u64 },
}

/// One simulated body.
#[derive(Clone, Copy, Debug, PartialEq, Eq, Structural)]
pub struct Body {
    pub id: u64,
    pub kind: Kind,
    pub position: Position,
    pub velocity: Velocity,
    /// Size factor in thousandths (1000 is the unscaled shape).
    pub scale: u32,
    pub shield: Option<Shield>,
    pub lifetime: Option<Lifetime>,
}

/// A contact reported by the physics engine between the bodies with these ids.
#[derive(Clone, Copy, Debug, PartialEq, Eq, Structural)]
pub struct Contact {
    pub a: u64,
    pub b: u64,
}

/// Every body of a match, in order of creation, and the simulation clock.
pub struct World {
    pub bodies: Vec<Body>,
    /// The id that the next spawned body receives.
    pub next_id: u64,
    /// Simulation time in milliseconds.
    pub now: u64,
}

/// Ids strictly increase along the sequence (so they are unique) and stay below `next`.
pub open spec fn ids_ordered(s: Seq<Body>, next: int) -> bool {
    &&& forall|i: int, j: int| 0 <= i < j < s.len() ==> s[i].id < s[j].id
    &&& forall|i: int| 0 <= i < s.len() ==> s[i].id < next
}

pub open spec fn has_id(s: Seq<Body>, id: u64) -> bool {
    exists|i: int| 0 <= i < s.len() && s[i].id == id
}

pub open spec fn is_asteroid(s: Seq<Body>, id: u64) -> bool {
    exists|i: int| 0 <= i < s.len() && s[i].id == id && s[i].kind is Asteroid
}

/// The body with a shield and the given id has an exhausted shield.
pub open spec fn exhausted(s: Seq<Body>, id: u64) -> bool {
    exists|i: int|
        #![trigger s[i]]
        0 <= i < s.len() && s[i].id == id && s[i].shield is Some && s[i].shield->0.energy < 0
}

pub open spec fn hit_body(b: Body) -> Body {
    match b.shield {
        Some(sh) => Body { shield: Some(Shield { energy: damaged(sh.energy as int) as i64 }), ..b },
        None => b,
    }
}

/// One contact's damage to the body with the given id, if it has a shield.
pub open spec fn hit(s: Seq<Body>, id: u64) -> Seq<Body> {
    s.map_values(|b: Body| if b.id == id { hit_body(b) } else { b })
}

/// The destruction event raised for `id` after it was hit, if any.
pub open spec fn raised(s: Seq<Body>, id: u64) -> Seq<u64> {
    if exhausted(s, id) { seq![id] } else { seq![] }
}

/// One contact: no effect between two asteroids; otherwise each of the two
/// bodies is hit in turn, and each exhausted after its hit is named.
pub open spec fn contact_step(s: Seq<Body>, c: Contact) -> (Seq<Body>, Seq<u64>) {
    if is_asteroid(s, c.a) && is_asteroid(s, c.b) {
        (s, seq![])
    } else {
        let s1 = hit(s, c.a);
        let s2 = hit(s1, c.b);
        (s2, raised(s1, c.a) + raised(s2, c.b))
    }
}

/// The bodies after a sequence of contacts, and the destruction events raised.
pub open spec fn after_contacts(s: Seq<Body>, cs: Seq<Contact>) -> (Seq<Body>, Seq<u64>)
    decreases cs.len(),
{
    if cs.len() == 0 {
        (s, seq![])
    } else {
        let prev = after_contacts(s, cs.drop_last());
        let step = contact_step(prev.0, cs.last());
        (step.0, prev.1 + step.1)
    }
}

/// A fresh asteroid with a shield of `ASTEROID_ENERGY`.
pub open spec fn asteroid_body(id: u64, position: Position, scale: u32, velocity: Velocity) -> Body {
    Body {
        id,
        kind: Kind::Asteroid(Asteroid),
        position,
        velocity,
        scale,
        shield: Some(Shield { energy: ASTEROID_ENERGY }),
        lifetime: None,
    }
}

/// A fresh transient body that is removed at time `death`.
pub open spec fn debris_body(id: u64, position: Position, velocity: Velocity, death: u64) -> Body {
    Body {
        id,
        kind: Kind::Debris(Debris),
        position,
        velocity,
        scale: 1000,
        shield: None,
        lifetime: Some(Lifetime { death }),
    }
}

/// `p` moved by `offset`, each coordinate limited to the range of `i32`.
pub open spec fn shifted(p: Position, offset: Position) -> Position {
    Position { x: clamp_i32(p.x + offset.x) as i32, y: clamp_i32(p.y + offset.y) as i32 }
}

/// A destroyed body splits when it is an asteroid above the minimum scale.
pub open spec fn splits(b: Body) -> bool {
    b.kind is Asteroid && b.scale > ASTEROID_MIN_SCALE
}

/// The asteroids that replace a destroyed body, numbered from `first`: four
/// at half its scale, each at its position moved by one of `offsets`, with
/// its velocity; none when it does not split.
pub open spec fn split_children(b: Body, offsets: Seq<Position>, first: int) -> Seq<Body> {
    if splits(b) {
        Seq::new(
            SPLIT_COUNT as nat,
            |k: int|
                asteroid_body(
                    (first + k) as u64,
                    shifted(b.position, offsets[k]),
                    b.scale / 2,
                    b.velocity,
                ),
        )
    } else {
        seq![]
    }
}

/// The four puffs that a destroyed body leaves, numbered from `first`: at
/// its position, each with its velocity pushed along one of `directions`.
pub open spec fn puffs(b: Body, directions: Seq<Direction>, first: int, death: u64) -> Seq<Body> {
    Seq::new(
        PUFF_COUNT as nat,
        |k: int|
            debris_body(
                (first + k) as u64,
                b.position,
                Velocity {
                    x: launched(b.velocity.x as int, directions[k].x as int, DEBRIS_SPEED as int)
                        as i64,
                    y: launched(b.velocity.y as int, directions[k].y as int, DEBRIS_SPEED as int)
                        as i64,
                },
                death,
            ),
    )
}

/// The time at which a puff spawned at `now` is removed.
pub open spec fn puff_death(now: u64) -> u64 {
    if now + THRUSTER_LIFETIME > u64::MAX { u64::MAX } else { (now + THRUSTER_LIFETIME) as u64 }
}

/// The bodies and the next id after destroying the body with the given id,
/// as `World::destroy` does: it is removed and replaced by its split
/// children (numbered from `next`) and then its four puffs; a missing id
/// changes nothing.
pub open spec fn after_destroy(
    s: Seq<Body>,
    next: int,
    now: u64,
    id: u64,
    offsets: Seq<Position>,
    directions: Seq<Direction>,
) -> (Seq<Body>, int) {
    if has_id(s, id) {
        let i = choose|i: int| 0 <= i < s.len() && s[i].id == id;
        let b = s[i];
        let children = split_children(b, offsets, next);
        (
            s.remove(i) + children + puffs(b, directions, next + children.len(), puff_death(now)),
            next + children.len() + PUFF_COUNT,
        )
    } else {
        (s, next)
    }
}

/// The bodies and the next id after destroying the named bodies in order,
/// the `k`-th with the split offsets `offsets[k]` and puff directions
/// `directions[k]`.
pub open spec fn after_kills(
    s: Seq<Body>,
    next: int,
    now: u64,
    events: Seq<u64>,
    offsets: Seq<Seq<Position>>,
    directions: Seq<Seq<Direction>>,
) -> (Seq<Body>, int)
    decreases events.len(),
{
    if events.len() == 0 {
        (s, next)
    } else {
        let k = events.len() - 1;
        let prev = after_kills(s, next, now, events.drop_last(), offsets, directions);
        after_destroy(prev.0, prev.1, now, events[k], offsets[k], directions[k])
    }
}

proof fn lemma_choose_unique(s: Seq<Body>, next: int, id: u64, i: int)
    requires
        ids_ordered(s, next),
        0 <= i < s.len(),
        s[i].id == id,
    ensures
        (choose|c: int| 0 <= c < s.len() && s[c].id == id) == i,
{
    let c = choose|c: int| 0 <= c < s.len() && s[c].id == id;
    if c < i {
        assert(s[c].id < s[i].id);
    } else if c > i {
        assert(s[i].id < s[c].id);
    }
}

/// Destroying a body removes its id for good: what is left and what is
/// spawned all have other ids, and the order of ids is kept.
pub proof fn lemma_destroy_removes(
    s: Seq<Body>,
    next: int,
    now: u64,
    id: u64,
    offsets: Seq<Position>,
    directions: Seq<Direction>,
)
    requires
        ids_ordered(s, next),
        id < next,
        next + SPLIT_COUNT + PUFF_COUNT <= u64::MAX,
    ensures
        !has_id(after_destroy(s, next, now, id, offsets, directions).0, id),
{
    let r = after_destroy(s, next, now, id, offsets, directions).0;
    if has_id(s, id) {
        let i = choose|i: int| 0 <= i < s.len() && s[i].id == id;
        let b = s[i];
        let children = split_children(b, offsets, next);
        let left = puffs(b, directions, next + children.len(), puff_death(now));
        let base = s.remove(i);
        assert(r == base + children + left);
        assert forall|k: int| 0 <= k < r.len() implies (#[trigger] r[k]).id != id by {
            if k < base.len() {
                let q = if k < i { k } else { k + 1 };
                assert(s[q] == r[k]);
                if q < i {
                    assert(s[q].id < s[i].id);
                } else {
                    assert(s[i].id < s[q].id);
                }
            } else if k < base.len() + children.len() {
                assert(r[k] == children[k - base.len()]);
            } else {
                assert(r[k] == left[k - base.len() - children.len()]);
            }
        }
    }
}

/// A destruction event repeated in the same tick does nothing more: the
/// body is destroyed, and its children and puffs spawned, once.
pub proof fn lemma_repeated_event(
    s: Seq<Body>,
    next: int,
    now: u64,
    id: u64,
    offsets: Seq<Seq<Position>>,
    directions: Seq<Seq<Direction>>,
)
    requires
        ids_ordered(s, next),
        id < next,
        next + SPLIT_COUNT + PUFF_COUNT <= u64::MAX,
        offsets.len() == 2,
        directions.len() == 2,
    ensures
        after_kills(s, next, now, seq![id, id], offsets, directions) == after_kills(
            s,
            next,
            now,
            seq![id],
            offsets,
            directions,
        ),
{
    let one = seq![id];
    let two = seq![id, id];
    assert(two.drop_last() =~= one);
    assert(one.drop_last() =~= Seq::<u64>::empty());
    assert(after_kills(s, next, now, one.drop_last(), offsets, directions) == (s, next));
    let first = after_destroy(s, next, now, id, offsets[0], directions[0]);
    assert(after_kills(s, next, now, one, offsets, directions) == first);
    lemma_destroy_removes(s, next, now, id, offsets[0], directions[0]);
    assert(after_kills(s, next, now, two, offsets, directions) == after_destroy(
        first.0,
        first.1,
        now,
        id,
        offsets[1],
        directions[1],
    ));
}

/// One destruction event for an existing body: it is removed, an asteroid
/// above the minimum scale leaves exactly four asteroids of half its scale
/// with its velocity and a fresh asteroid shield, each moved by its offset,
/// any other body leaves none, and every body leaves exactly four puffs at
/// its position, each pushed at `DEBRIS_SPEED` along its direction and
/// lasting `THRUSTER_LIFETIME`.
pub proof fn lemma_one_event(
    s: Seq<Body>,
    next: int,
    now: u64,
    i: int,
    offsets: Seq<Position>,
    directions: Seq<Direction>,
)
    requires
        ids_ordered(s, next),
        0 <= i < s.len(),
        0 <= next,
        next + SPLIT_COUNT + PUFF_COUNT <= u64::MAX,
        offsets.len() == SPLIT_COUNT,
        directions.len() == PUFF_COUNT,
    ensures
        ({
            let b = s[i];
            let r = after_kills(s, next, now, seq![b.id], seq![offsets], seq![directions]);
            let n = if splits(b) { SPLIT_COUNT as int } else { 0 };
            &&& r.0.len() == s.len() - 1 + n + PUFF_COUNT
            &&& r.1 == next + n + PUFF_COUNT
            &&& r.0.subrange(0, s.len() - 1) == s.remove(i)
            &&& forall|k: int|
                0 <= k < n ==> #[trigger] r.0[s.len() - 1 + k] == asteroid_body(
                    (next + k) as u64,
                    shifted(b.position, offsets[k]),
                    b.scale / 2,
                    b.velocity,
                )
            &&& forall|k: int|
                0 <= k < PUFF_COUNT ==> {
                    let p = #[trigger] r.0[s.len() - 1 + n + k];
                    &&& p.kind is Debris
                    &&& p.id == next + n + k
                    &&& p.position == b.position
                    &&& p.velocity.x == launched(b.velocity.x as int, directions[k].x as int, DEBRIS_SPEED as int)
                    &&& p.velocity.y == launched(b.velocity.y as int, directions[k].y as int, DEBRIS_SPEED as int)
                    &&& p.lifetime == Some(Lifetime { death: puff_death(now) })
                    &&& p.shield is None
                }
        }),
{
    let b = s[i];
    assert(has_id(s, b.id));
    lemma_choose_unique(s, next, b.id, i);
    let one = seq![b.id];
    assert(one.drop_last() =~= Seq::<u64>::empty());
    assert(after_kills(s, next, now, one.drop_last(), seq![offsets], seq![directions]) == (s, next));
    assert(seq![offsets][0] == offsets);
    assert(seq![directions][0] == directions);
    let children = split_children(b, offsets, next);
    let r = after_kills(s, next, now, one, seq![offsets], seq![directions]);
    assert(r == after_destroy(s, next, now, b.id, offsets, directions));
    assert(r.0 == s.remove(i) + children + puffs(b, directions, next + children.len(), puff_death(now)));
    assert(r.0.subrange(0, s.len() - 1) =~= s.remove(i));
    let n = children.len();
    let base = s.remove(i);
    let left = puffs(b, directions, next + n, puff_death(now));
    assert forall|k: int| 0 <= k < n implies #[trigger] r.0[s.len() - 1 + k] == children[k] by {
        assert((base + children + left)[base.len() + k] == children[k]);
    }
    assert forall|k: int| 0 <= k < PUFF_COUNT implies #[trigger] r.0[s.len() - 1 + n + k] == left[k] by {
        assert((base + children + left)[base.len() + n + k] == left[k]);
    }
}

/// A transient body has expired once the clock has reached its death time.
pub open spec fn expired(b: Body, now: u64) -> bool {
    b.lifetime matches Some(l) && l.death <= now
}

/// The bodies that are kept at time `now`.
pub open spec fn survives(now: u64) -> spec_fn(Body) -> bool {
    |b: Body| !expired(b, now)
}

/// A body after `dt` milliseconds of regeneration: every shield but a
/// mirrored one recovers.
pub open spec fn recharged(b: Body, dt: u64) -> Body {
    match b.shield {
        Some(sh) => if b.kind is Mirror {
            b
        } else {
            Body { shield: Some(Shield { energy: regenerated(sh.energy as int, dt as int) as i64 }), ..b }
        },
        None => b,
    }
}

/// A ship that carries a shield.
pub open spec fn shielded_ship(b: Body) -> bool {
    b.kind is Ship && b.shield is Some
}

/// The shield energy of the ship with the given id, if there is such a ship.
pub open spec fn energy_of(s: Seq<Body>, id: u64) -> Option<i64> {
    if exists|i: int| 0 <= i < s.len() && s[i].id == id && shielded_ship(#[trigger] s[i]) {
        let i = choose|i: int| 0 <= i < s.len() && s[i].id == id && shielded_ship(#[trigger] s[i]);
        Some(s[i].shield->0.energy)
    } else {
        None
    }
}

/// A body after mirroring: a mirrored shield takes its owner's energy when
/// the owner is a ship with a shield; otherwise it keeps its own.
pub open spec fn mirrored(s: Seq<Body>, b: Body) -> Body {
    match b.kind {
        Kind::Mirror { owner } => match (b.shield, energy_of(s, owner)) {
            (Some(_), Some(e)) => Body { shield: Some(Shield { energy: e }), ..b },
            _ => b,
        },
        _ => b,
    }
}

/// A body after the arena's wrap.
pub open spec fn warped(b: Body) -> Body {
    Body {
        position: Position {
            x: wrapped(b.position.x as int) as i32,
            y: wrapped(b.position.y as int) as i32,
        },
        ..b
    }
}

/// The time at which a projectile fired at `now` is removed.
pub open spec fn shot_death(now: u64) -> u64 {
    if now + GUN_LIFETIME > u64::MAX { u64::MAX } else { (now + GUN_LIFETIME) as u64 }
}

/// The bindings of a player, as `get_key_config_for` returns them.
pub open spec fn key_config(player: u8) -> Option<KeyConfig> {
    if player == 0 {
        Some(crate::controls::first_player_keys())
    } else if player == 1 {
        Some(crate::controls::second_player_keys())
    } else {
        None
    }
}

/// What the physics engine is to apply to a steered ship this tick.
#[derive(Clone, Copy, Debug, PartialEq, Eq, Structural)]
pub struct Steering {
    /// Impulse along the thrust direction; zero when thrust is not held.
    pub impulse: Velocity,
    /// Angular velocity, in thousandths of a radian per second.
    pub angvel: i64,
}

/// The impulse of `dt` milliseconds of thrust along one axis of `d`.
pub open spec fn thrust_impulse(d: int, dt: int) -> int {
    clamp_i64(d * THRUST_PER_MS * dt)
}

/// A position moved one pixel along `d`.
pub open spec fn ahead(p: Position, d: Direction) -> Position {
    Position { x: clamp_i32(p.x + d.x) as i32, y: clamp_i32(p.y + d.y) as i32 }
}

/// The bodies that one tick of a ship's controls spawns, numbered from `first`:
/// a projectile from its nose along `aim`, then an exhaust puff from its
/// tail against `push`, each only when due.
pub open spec fn steer_spawns(
    b: Body,
    fire: bool,
    exhaust: bool,
    aim: Direction,
    push: Direction,
    first: int,
    now: u64,
) -> Seq<Body> {
    let shots = if fire {
        seq![
            debris_body(
                first as u64,
                ahead(b.position, aim),
                Velocity {
                    x: launched(b.velocity.x as int, aim.x as int, SHOT_SPEED as int) as i64,
                    y: launched(b.velocity.y as int, aim.y as int, SHOT_SPEED as int) as i64,
                },
                shot_death(now),
            ),
        ]
    } else {
        seq![]
    };
    let exhausts = if exhaust {
        seq![
            debris_body(
                (first + shots.len()) as u64,
                b.position,
                Velocity {
                    x: launched(b.velocity.x as int, -push.x, THRUSTER_SPEED as int)
                        as i64,
                    y: launched(b.velocity.y as int, -push.y, THRUSTER_SPEED as int)
                        as i64,
                },
                puff_death(now),
            ),
        ]
    } else {
        seq![]
    };
    shots + exhausts
}

/// Number of further splits that an asteroid of this scale can go through.
pub open spec fn generations(scale: nat) -> nat
    decreases scale,
{
    if scale > ASTEROID_MIN_SCALE {
        1 + generations(scale / 2)
    } else {
        0
    }
}

/// A destroyed asteroid above the minimum scale is replaced by exactly four
/// asteroids, each of half its scale and each with one generation fewer
/// left; one at or below the minimum is replaced by none. Splitting thus
/// ends after `generations(scale)` rounds.
pub proof fn lemma_split_children(b: Body, offsets: Seq<Position>, first: int)
    requires
        b.kind is Asteroid,
    ensures
        b.scale > ASTEROID_MIN_SCALE ==> split_children(b, offsets, first).len() == SPLIT_COUNT,
        b.scale <= ASTEROID_MIN_SCALE ==> split_children(b, offsets, first).len() == 0,
        generations(b.scale as nat) == 0 <==> b.scale <= ASTEROID_MIN_SCALE,
        forall|k: int|
            0 <= k < split_children(b, offsets, first).len() ==> {
                let c = #[trigger] split_children(b, offsets, first)[k];
                &&& c.kind is Asteroid
                &&& c.scale == b.scale / 2
                &&& generations(c.scale as nat) + 1 == generations(b.scale as nat)
            },
{
    if b.scale > ASTEROID_MIN_SCALE {
        assert(generations(b.scale as nat) == 1 + generations((b.scale / 2) as nat));
    }
}

/// A transient body that was spawned at `t` with lifetime `l` survives
/// expiry at every time in `[t, t + l)` and is removed at every later time.
pub proof fn lemma_lifetime_window(s: Seq<Body>, b: Body, t: u64, l: u64, now: u64)
    requires
        s.contains(b),
        b.lifetime == Some(Lifetime { death: (t + l) as u64 }),
        t + l <= u64::MAX,
        t <= now,
    ensures
        s.filter(survives(now)).contains(b) <==> now < t + l,
{
    let i = choose|i: int| 0 <= i < s.len() && s[i] == b;
    if now < t + l {
        s.lemma_filter_contains(survives(now), i);
    } else {
        if s.filter(survives(now)).contains(b) {
            s.lemma_filter_contains_rev(survives(now), b);
        }
    }
}

/// Debris and projectiles are spawned with the lifetime of their kind:
/// a puff spawned at `now` dies at `now + THRUSTER_LIFETIME`, a shot at
/// `now + GUN_LIFETIME`, unless that passes the end of time.
pub proof fn lemma_spawned_lifetimes(now: u64)
    ensures
        now + THRUSTER_LIFETIME <= u64::MAX ==> puff_death(now) == now + THRUSTER_LIFETIME,
        now + GUN_LIFETIME <= u64::MAX ==> shot_death(now) == now + GUN_LIFETIME,
{
}

/// A body that drifted by at most one arena width past the arena is inside
/// it after one wrap pass.
pub proof fn lemma_warped_in_arena(b: Body)
    requires
        -3 * SPACE_HALF <= b.position.x <= 3 * SPACE_HALF,
        -3 * SPACE_HALF <= b.position.y <= 3 * SPACE_HALF,
    ensures
        -SPACE_HALF <= warped(b).position.x <= SPACE_HALF,
        -SPACE_HALF <= warped(b).position.y <= SPACE_HALF,
{
    crate::topology::lemma_wrap_stays_in_arena(b.position.x as int);
    crate::topology::lemma_wrap_stays_in_arena(b.position.y as int);
}

/// One energy label for each ship, in the order of the bodies.
pub open spec fn ship_labels(s: Seq<Body>) -> Seq<EnergyDisplay>
    decreases s.len(),
{
    if s.len() == 0 {
        seq![]
    } else {
        let rest = ship_labels(s.drop_last());
        if s.last().kind is Ship {
            rest.push(EnergyDisplay { ship: s.last().id })
        } else {
            rest
        }
    }
}

proof fn lemma_hit_keeps_ids(s: Seq<Body>, id: u64, next: int)
    requires
        ids_ordered(s, next),
    ensures
        ids_ordered(hit(s, id), next),
        hit(s, id).len() == s.len(),
        forall|i: int| 0 <= i < s.len() ==> (#[trigger] hit(s, id)[i]).id == s[i].id && hit(
            s,
            id,
        )[i].kind == s[i].kind,
{
}

impl World {
    pub open spec fn wf(&self) -> bool {
        ids_ordered(self.bodies@, self.next_id as int)
    }

    /// An empty arena at time zero.
    pub fn new() -> (w: World)
        ensures
            w.wf(),
            w.bodies@.len() == 0,
            w.next_id == 0,
            w.now == 0,
    {
        World { bodies: Vec::new(), next_id: 0, now: 0 }
    }

    /// Where the body with the given id stands, if it exists.
    pub fn index_of(&self, id: u64) -> (r: Option<usize>)
        requires
            self.wf(),
        ensures
            match r {
                Some(i) => i < self.bodies.len() && self.bodies[i as int].id == id,
                None => !has_id(self.bodies@, id),
            },
    {
        let n = self.bodies.len();
        for i in 0..n
            invariant
                n == self.bodies.len(),
                forall|k: int| 0 <= k < i ==> self.bodies[k].id != id,
        {
            if self.bodies[i].id == id {
                return Some(i);
            }
        }
        None
    }

    /// Adds a body under a fresh id, which it returns.
    pub fn spawn(&mut self, body: Body) -> (id: u64)
        requires
            old(self).wf(),
            old(self).next_id < u64::MAX,
        ensures
            final(self).wf(),
            id == old(self).next_id,
            final(self).next_id == old(self).next_id + 1,
            final(self).bodies@ == old(self).bodies@.push(Body { id, ..body }),
            final(self).now == old(self).now,
    {
        let id = self.next_id;
        self.bodies.push(Body { id, ..body });
        self.next_id = id + 1;
        id
    }

    /// Removes the body with the given id; a missing id is left alone.
    /// Returns whether a body was removed.
    pub fn despawn(&mut self, id: u64) -> (removed: bool)
        requires
            old(self).wf(),
        ensures
            final(self).wf(),
            final(self).next_id == old(self).next_id,
            final(self).now == old(self).now,
            removed == has_id(old(self).bodies@, id),
            !has_id(final(self).bodies@, id),
            removed ==> exists|i: int|
                0 <= i < old(self).bodies.len() && old(self).bodies[i].id == id
                    && final(self).bodies@ == old(self).bodies@.remove(i),
            !removed ==> final(self).bodies@ == old(self).bodies@,
    {
        match self.index_of(id) {
            Some(i) => {
                self.bodies.remove(i);
                assert(forall|k: int|
                    0 <= k < self.bodies.len() ==> self.bodies[k] == if k < i {
                        old(self).bodies[k]
                    } else {
                        old(self).bodies[k + 1]
                    });
                true
            },
            None => false,
        }
    }

    /// Adds an asteroid of the given scale with a fresh shield.
    pub fn spawn_asteroid(&mut self, position: Position, scale: u32, velocity: Velocity) -> (id: u64)
        requires
            old(self).wf(),
            old(self).next_id < u64::MAX,
        ensures
            final(self).wf(),
            id == old(self).next_id,
            final(self).next_id == old(self).next_id + 1,
            final(self).bodies@ == old(self).bodies@.push(
                asteroid_body(id, position, scale, velocity),
            ),
            final(self).now == old(self).now,
    {
        self.spawn(
            Body {
                id: 0,
                kind: Kind::Asteroid(Asteroid),
                position,
                velocity,
                scale,
                shield: Some(Shield { energy: ASTEROID_ENERGY }),
                lifetime: None,
            },
        )
    }

    /// Adds an exhaust or debris puff that lasts `THRUSTER_LIFETIME`.
    pub fn spawn_debris(&mut self, position: Position, velocity: Velocity) -> (id: u64)
        requires
            old(self).wf(),
            old(self).next_id < u64::MAX,
        ensures
            final(self).wf(),
            id == old(self).next_id,
            final(self).next_id == old(self).next_id + 1,
            final(self).bodies@ == old(self).bodies@.push(
                debris_body(id, position, velocity, puff_death(old(self).now)),
            ),
            final(self).now == old(self).now,
    {
        let death = self.now.saturating_add(THRUSTER_LIFETIME);
        self.spawn(
            Body {
                id: 0,
                kind: Kind::Debris(Debris),
                position,
                velocity,
                scale: 1000,
                shield: None,
                lifetime: Some(Lifetime { death }),
            },
        )
    }

    /// Adds a projectile that lasts `GUN_LIFETIME`.
    pub fn spawn_shot(&mut self, position: Position, velocity: Velocity) -> (id: u64)
        requires
            old(self).wf(),
            old(self).next_id < u64::MAX,
        ensures
            final(self).wf(),
            id == old(self).next_id,
            final(self).next_id == old(self).next_id + 1,
            final(self).bodies@ == old(self).bodies@.push(
                debris_body(id, position, velocity, shot_death(old(self).now)),
            ),
            final(self).now == old(self).now,
    {
        let death = self.now.saturating_add(GUN_LIFETIME);
        self.spawn(
            Body {
                id: 0,
                kind: Kind::Debris(Debris),
                position,
                velocity,
                scale: 1000,
                shield: None,
                lifetime: Some(Lifetime { death }),
            },
        )
    }

    /// One tick of the controls of the ship with the given id, over `dt`
    /// milliseconds with the given keys pressed. `aim` and `push` are the
    /// ship's heading with the small random deviations of a shot and of
    /// thrust. The gun and thruster timers advance; a shot and an exhaust
    /// puff are spawned when due; the returned impulse and angular velocity
    /// are for the physics engine. A missing ship, or one whose player has no
    /// bindings, is left alone and gets `None`.
    pub fn input_handler(
        &mut self,
        id: u64,
        pressed: &Vec<Key>,
        dt: u64,
        aim: Direction,
        push: Direction,
    ) -> (r: Option<Steering>)
        requires
            old(self).wf(),
            old(self).next_id + 2 <= u64::MAX,
            aim.valid(),
            push.valid(),
        ensures
            final(self).wf(),
            final(self).now == old(self).now,
            r is None ==> final(self).bodies@ == old(self).bodies@ && final(self).next_id == old(
                self,
            ).next_id,
            r is None <==> !exists|i: int|
                0 <= i < old(self).bodies.len() && old(self).bodies[i].id == id && (
                #[trigger] old(self).bodies[i].kind matches Kind::Ship { ship, .. } && key_config(
                    ship.player,
                ) is Some),
            r matches Some(st) ==> exists|i: int|
                0 <= i < old(self).bodies.len() && old(self).bodies[i].id == id && (
                #[trigger] old(self).bodies[i].kind matches Kind::Ship { ship, gun, thruster } && ({
                    let b = old(self).bodies[i];
                    let held = held_of(key_config(ship.player)->0, pressed@);
                    let fire = fires(gun.time as int, dt as int, held.shoot);
                    let exhaust = puffs_out(thruster.thruster_time as int, dt as int, held.thrust);
                    let spawned = steer_spawns(b, fire, exhaust, aim, push, old(self).next_id as int, old(self).now);
                    let steered = Body {
                        kind: Kind::Ship {
                            ship,
                            gun: Gun { time: gun_after(gun.time as int, dt as int, held.shoot) as i64 },
                            thruster: Thruster {
                                thruster_time: thruster_after(
                                    thruster.thruster_time as int,
                                    dt as int,
                                    held.thrust,
                                ) as u64,
                            },
                        },
                        ..b
                    };
                    &&& final(self).bodies@ == old(self).bodies@.update(i, steered) + spawned
                    &&& final(self).next_id == old(self).next_id + spawned.len()
                    &&& st.angvel == angvel_of(held)
                    &&& st.impulse.x == if held.thrust { thrust_impulse(push.x as int, dt as int) } else { 0 }
                    &&& st.impulse.y == if held.thrust { thrust_impulse(push.y as int, dt as int) } else { 0 }
                })),
    {
        let i = match self.index_of(id) {
            Some(i) => i,
            None => {
                return None;
            },
        };
        let b = self.bodies[i];
        let (ship, mut gun, mut thruster) = match b.kind {
            Kind::Ship { ship, gun, thruster } => (ship, gun, thruster),
            _ => {
                proof {
                    assert forall|j: int|
                        0 <= j < old(self).bodies.len() && old(self).bodies[j].id == id implies !(
                        #[trigger] old(self).bodies[j].kind is Ship) by {
                        if j < i {
                            assert(self.bodies@[j].id < self.bodies@[i as int].id);
                        } else if j > i {
                            assert(self.bodies@[i as int].id < self.bodies@[j].id);
                        }
                    }
                }
                return None;
            },
        };
        let config = match get_key_config_for(ship.player) {
            Some(c) => c,
            None => {
                proof {
                    assert forall|j: int|
                        0 <= j < old(self).bodies.len() && old(self).bodies[j].id == id implies !(
                        #[trigger] old(self).bodies[j].kind matches Kind::Ship { ship, .. }
                            && key_config(ship.player) is Some) by {
                        if j < i {
                            assert(self.bodies@[j].id < self.bodies@[i as int].id);
                        } else if j > i {
                            assert(self.bodies@[i as int].id < self.bodies@[j].id);
                        }
                    }
                }
                return None;
            },
        };
        let held = held_controls(&config, pressed);
        let action = steer(&mut gun, &mut thruster, held, dt);
        let steered = Body { kind: Kind::Ship { ship, gun, thruster }, ..b };
        self.bodies.set(i, steered);
        let ghost base = self.bodies@;
        proof {
            assert forall|j: int, k: int| 0 <= j < k < base.len() implies base[j].id < base[k].id by {
                assert(old(self).bodies@[j].id < old(self).bodies@[k].id);
            }
        }
        if action.fire {
            let pos = Position {
                x: add_clamped_i32(b.position.x, aim.x),
                y: add_clamped_i32(b.position.y, aim.y),
            };
            let v = b.velocity.launched(aim, SHOT_SPEED);
            self.spawn_shot(pos, v);
        }
        if action.exhaust {
            let back = Direction { x: -push.x, y: -push.y };
            assert(back.x * back.x + back.y * back.y == push.x * push.x + push.y * push.y)
                by (nonlinear_arith)
                requires back.x == -push.x, back.y == -push.y;
            let v = b.velocity.launched(back, THRUSTER_SPEED);
            self.spawn_debris(b.position, v);
        }
        let impulse = if action.thrust {
            Velocity { x: impulse_along(push.x, dt), y: impulse_along(push.y, dt) }
        } else {
            Velocity { x: 0, y: 0 }
        };
        let ghost spawned = steer_spawns(b, action.fire, action.exhaust, aim, push, old(self).next_id as int, old(self).now);
        assert(self.bodies@ =~= old(self).bodies@.update(i as int, steered) + spawned);
        Some(Steering { impulse, angvel: action.angvel })
    }

    /// Destroys the body with the given id: it is removed; an asteroid above
    /// the minimum scale is replaced by four at half scale, each moved by one
    /// of `offsets`; and any destroyed body leaves four puffs, each pushed
    /// along one of `directions`. A missing id changes nothing.
    pub fn destroy(&mut self, id: u64, offsets: &Vec<Position>, directions: &Vec<Direction>) -> (
        destroyed: bool)
        requires
            old(self).wf(),
            old(self).next_id + SPLIT_COUNT + PUFF_COUNT <= u64::MAX,
            offsets.len() == SPLIT_COUNT,
            directions.len() == PUFF_COUNT,
            forall|k: int| 0 <= k < directions.len() ==> (#[trigger] directions[k]).valid(),
        ensures
            final(self).wf(),
            final(self).now == old(self).now,
            destroyed == has_id(old(self).bodies@, id),
            (final(self).bodies@, final(self).next_id as int) == after_destroy(
                old(self).bodies@,
                old(self).next_id as int,
                old(self).now,
                id,
                offsets@,
                directions@,
            ),
            id < old(self).next_id ==> !has_id(final(self).bodies@, id),
            forall|x: Body|
                #![trigger final(self).bodies@.contains(x)]
                old(self).bodies@.contains(x) && x.id != id ==> final(self).bodies@.contains(x),
            forall|k: int|
                #![trigger final(self).bodies[k]]
                0 <= k < final(self).bodies.len() ==> old(self).next_id <= final(self).bodies[k].id
                    || old(self).bodies@.contains(final(self).bodies[k]),
            old(self).next_id <= final(self).next_id <= old(self).next_id + SPLIT_COUNT + PUFF_COUNT,
            !destroyed ==> final(self).bodies@ == old(self).bodies@ && final(self).next_id == old(
                self,
            ).next_id,
            destroyed ==> exists|i: int|
                0 <= i < old(self).bodies.len() && old(self).bodies[i].id == id && ({
                    let b = old(self).bodies[i];
                    let children = split_children(b, offsets@, old(self).next_id as int);
                    &&& final(self).bodies@ == old(self).bodies@.remove(i) + children + puffs(
                        b,
                        directions@,
                        old(self).next_id + children.len(),
                        puff_death(old(self).now),
                    )
                    &&& final(self).next_id == old(self).next_id + children.len() + PUFF_COUNT
                }),
    {
        let i = match self.index_of(id) {
            Some(i) => i,
            None => {
                proof {
                    assert forall|k: int| 0 <= k < self.bodies.len() implies old(self).next_id <= (
                    #[trigger] self.bodies[k]).id || old(self).bodies@.contains(self.bodies[k]) by {
                        assert(old(self).bodies@[k] == self.bodies[k]);
                    }
                }
                return false;
            },
        };
        let ghost first = self.next_id as int;
        let ghost death = puff_death(self.now);
        let b = self.bodies.remove(i);
        let ghost base = self.bodies@;
        assert(base =~= old(self).bodies@.remove(i as int));
        assert(forall|k: int|
            0 <= k < base.len() ==> base[k] == if k < i {
                old(self).bodies[k]
            } else {
                old(self).bodies[k + 1]
            });
        let ghost children = split_children(b, offsets@, first);
        if b.scale > ASTEROID_MIN_SCALE && matches!(b.kind, Kind::Asteroid(_)) {
            for k in 0..SPLIT_COUNT
                invariant
                    self.wf(),
                    self.now == old(self).now,
                    self.next_id == first + k,
                    first + SPLIT_COUNT + PUFF_COUNT <= u64::MAX,
                    offsets.len() == SPLIT_COUNT,
                    splits(b),
                    children == split_children(b, offsets@, first),
                    self.bodies@ == base + children.take(k as int),
            {
                let p = offsets[k];
                let pos = Position {
                    x: add_clamped_i32(b.position.x, p.x as i64),
                    y: add_clamped_i32(b.position.y, p.y as i64),
                };
                self.spawn_asteroid(pos, b.scale / 2, b.velocity);
                assert(children.take(k as int + 1) =~= children.take(k as int).push(children[k as int]));
            }
            assert(children.take(SPLIT_COUNT as int) =~= children);
        } else {
            assert(self.bodies@ =~= base + children);
        }
        let ghost mid = self.bodies@;
        let ghost left = puffs(b, directions@, first + children.len(), death);
        for k in 0..PUFF_COUNT
            invariant
                self.wf(),
                self.now == old(self).now,
                self.next_id == first + children.len() + k,
                first + SPLIT_COUNT + PUFF_COUNT <= u64::MAX,
                children.len() <= SPLIT_COUNT,
                death == puff_death(self.now),
                left == puffs(b, directions@, first + children.len(), death),
                directions.len() == PUFF_COUNT,
                forall|j: int| 0 <= j < directions.len() ==> (#[trigger] directions[j]).valid(),
                self.bodies@ == mid + left.take(k as int),
        {
            let v = b.velocity.launched(directions[k], DEBRIS_SPEED);
            self.spawn_debris(b.position, v);
            assert(left.take(k as int + 1) =~= left.take(k as int).push(left[k as int]));
        }
        assert(left.take(PUFF_COUNT as int) =~= left);
        proof {
            let fin = self.bodies@;
            assert(fin == base + children + left);
            let c = choose|c: int| 0 <= c < old(self).bodies@.len() && old(self).bodies@[c].id == id;
            assert(c == i) by {
                if c < i {
                    assert(old(self).bodies@[c].id < old(self).bodies@[i as int].id);
                } else if c > i {
                    assert(old(self).bodies@[i as int].id < old(self).bodies@[c].id);
                }
            }
            assert forall|k: int| 0 <= k < fin.len() implies first <= (#[trigger] fin[k]).id
                || old(self).bodies@.contains(fin[k]) by {
                if k < base.len() {
                    let q = if k < i { k } else { k + 1 };
                    assert(old(self).bodies@[q] == fin[k]);
                } else if k < base.len() + children.len() {
                    assert(fin[k] == children[k - base.len()]);
                } else {
                    assert(fin[k] == left[k - base.len() - children.len()]);
                }
            }
            assert forall|x: Body| old(self).bodies@.contains(x) && x.id != id implies #[trigger] fin.contains(x) by {
                let p = choose|p: int| 0 <= p < old(self).bodies@.len() && old(self).bodies@[p] == x;
                assert(p != i);
                let q = if p < i { p } else { p - 1 };
                assert(fin[q] == x);
            }
            if id < first {
                assert forall|k: int| 0 <= k < fin.len() implies (#[trigger] fin[k]).id != id by {
                    if k < base.len() {
                        let q = if k < i { k } else { k + 1 };
                        assert(old(self).bodies@[q] == fin[k]);
                        assert(q != i);
                    } else if k < base.len() + children.len() {
                        assert(fin[k] == children[k - base.len()]);
                    } else {
                        assert(fin[k] == left[k - base.len() - children.len()]);
                    }
                }
            }
        }
        true
    }

    /// Removes every transient body whose death time has been reached.
    pub fn kill_debris(&mut self)
        requires
            old(self).wf(),
        ensures
            final(self).wf(),
            final(self).next_id == old(self).next_id,
            final(self).now == old(self).now,
            final(self).bodies@ == old(self).bodies@.filter(survives(old(self).now)),
    {
        let now = self.now;
        let ghost src = self.bodies@;
        let n = self.bodies.len();
        let mut kept: Vec<Body> = Vec::new();
        for i in 0..n
            invariant
                n == self.bodies.len(),
                src == self.bodies@,
                now == self.now,
                self.wf(),
                ids_ordered(kept@, self.next_id as int),
                forall|m: int, k: int|
                    0 <= m < kept.len() && i <= k < n ==> #[trigger] kept[m].id < #[trigger] src[k].id,
                kept@ == src.take(i as int).filter(survives(now)),
        {
            let b = self.bodies[i];
            proof {
                assert(src.take(i as int + 1) =~= src.take(i as int).push(b));
                src.take(i as int).lemma_filter_push(b, survives(now));
            }
            let gone = match b.lifetime {
                Some(l) => l.death <= now,
                None => false,
            };
            if !gone {
                kept.push(b);
            }
        }
        proof {
            assert(src.take(n as int) =~= src);
        }
        self.bodies = kept;
    }

    /// Regenerates every shield but the mirrored ones over `dt` milliseconds.
    pub fn load_shields(&mut self, dt: u64)
        requires
            old(self).wf(),
        ensures
            final(self).wf(),
            final(self).next_id == old(self).next_id,
            final(self).now == old(self).now,
            final(self).bodies@ == old(self).bodies@.map_values(|b: Body| recharged(b, dt)),
    {
        let n = self.bodies.len();
        for i in 0..n
            invariant
                n == self.bodies.len(),
                n == old(self).bodies.len(),
                self.next_id == old(self).next_id,
                self.now == old(self).now,
                forall|k: int| 0 <= k < i ==> self.bodies[k] == recharged(#[trigger] old(self).bodies[k], dt),
                forall|k: int| i <= k < n ==> self.bodies[k] == #[trigger] old(self).bodies[k],
        {
            let mut b = self.bodies[i];
            let is_mirror = match b.kind {
                Kind::Mirror { .. } => true,
                _ => false,
            };
            if !is_mirror {
                match b.shield {
                    Some(mut sh) => {
                        sh.load_shield(dt);
                        b.shield = Some(sh);
                        self.bodies.set(i, b);
                    },
                    None => {},
                }
            }
        }
        assert(self.bodies@ =~= old(self).bodies@.map_values(|b: Body| recharged(b, dt)));
    }

    /// The shield energy of the ship with the given id.
    fn energy_of_id(&self, id: u64) -> (r: Option<i64>)
        requires
            self.wf(),
        ensures
            r == energy_of(self.bodies@, id),
    {
        match self.index_of(id) {
            Some(i) => match (self.bodies[i].shield, self.bodies[i].kind) {
                (Some(sh), Kind::Ship { .. }) => {
                    let ghost j = choose|j: int|
                        0 <= j < self.bodies@.len() && self.bodies@[j].id == id && shielded_ship(
                            #[trigger] self.bodies@[j],
                        );
                    assert(shielded_ship(self.bodies@[i as int]));
                    assert(j == i) by {
                        if j < i {
                            assert(self.bodies@[j].id < self.bodies@[i as int].id);
                        } else if j > i {
                            assert(self.bodies@[i as int].id < self.bodies@[j].id);
                        }
                    }
                    Some(sh.energy)
                },
                _ => {
                    assert(!exists|j: int|
                        0 <= j < self.bodies@.len() && self.bodies@[j].id == id && shielded_ship(
                            #[trigger] self.bodies@[j],
                        )) by {
                        assert forall|j: int|
                            0 <= j < self.bodies@.len() && self.bodies@[j].id == id implies !shielded_ship(
                            #[trigger] self.bodies@[j]) by {
                            if j < i {
                                assert(self.bodies@[j].id < self.bodies@[i as int].id);
                            } else if j > i {
                                assert(self.bodies@[i as int].id < self.bodies@[j].id);
                            }
                        }
                    }
                    None
                },
            },
            None => None,
        }
    }

    /// Copies each ship's energy onto the shield that mirrors it.
    pub fn copy_shield_values(&mut self)
        requires
            old(self).wf(),
        ensures
            final(self).wf(),
            final(self).next_id == old(self).next_id,
            final(self).now == old(self).now,
            final(self).bodies@ == old(self).bodies@.map_values(
                |b: Body| mirrored(old(self).bodies@, b),
            ),
    {
        let n = self.bodies.len();
        let ghost src = self.bodies@;
        let mut out: Vec<Body> = Vec::new();
        for i in 0..n
            invariant
                n == self.bodies.len(),
                src == self.bodies@,
                self.wf(),
                out.len() == i,
                forall|k: int| 0 <= k < i ==> out[k] == mirrored(src, #[trigger] src[k]),
        {
            let mut b = self.bodies[i];
            match b.kind {
                Kind::Mirror { owner } => match b.shield {
                    Some(mut sh) => match self.energy_of_id(owner) {
                        Some(e) => {
                            sh.energy = e;
                            b.shield = Some(sh);
                        },
                        None => {},
                    },
                    None => {},
                },
                _ => {},
            }
            out.push(b);
        }
        assert(out@ =~= src.map_values(|b: Body| mirrored(src, b)));
        self.bodies = out;
    }

    /// Wraps every body back into the arena.
    pub fn warp_all(&mut self)
        requires
            old(self).wf(),
        ensures
            final(self).wf(),
            final(self).next_id == old(self).next_id,
            final(self).now == old(self).now,
            final(self).bodies@ == old(self).bodies@.map_values(|b: Body| warped(b)),
    {
        let n = self.bodies.len();
        for i in 0..n
            invariant
                n == self.bodies.len(),
                n == old(self).bodies.len(),
                self.next_id == old(self).next_id,
                self.now == old(self).now,
                forall|k: int| 0 <= k < i ==> self.bodies[k] == warped(#[trigger] old(self).bodies[k]),
                forall|k: int| i <= k < n ==> self.bodies[k] == #[trigger] old(self).bodies[k],
        {
            let mut b = self.bodies[i];
            b.position = warp_space(b.position);
            self.bodies.set(i, b);
        }
        assert(self.bodies@ =~= old(self).bodies@.map_values(|b: Body| warped(b)));
    }

    /// Moves the clock on by `dt` milliseconds, stopping at the largest time;
    /// called as a tick begins, so that what it spawns and expires go by the
    /// same time.
    pub fn advance_clock(&mut self, dt: u64)
        ensures
            final(self).now == if old(self).now + dt > u64::MAX { u64::MAX as int } else { old(self).now + dt },
            final(self).bodies@ == old(self).bodies@,
            final(self).next_id == old(self).next_id,
    {
        self.now = self.now.saturating_add(dt);
    }

    /// The passes that close a tick of `dt` milliseconds, in order: shields
    /// regenerate, mirrored shields copy their ships, every body is wrapped
    /// into the arena, and transient bodies that have reached their death
    /// time are removed.
    pub fn finish_tick(&mut self, dt: u64)
        requires
            old(self).wf(),
        ensures
            final(self).wf(),
            final(self).next_id == old(self).next_id,
            final(self).now == old(self).now,
            ({
                let recharged_all = old(self).bodies@.map_values(|b: Body| recharged(b, dt));
                let mirrored_all = recharged_all.map_values(|b: Body| mirrored(recharged_all, b));
                let warped_all = mirrored_all.map_values(|b: Body| warped(b));
                final(self).bodies@ == warped_all.filter(survives(old(self).now))
            }),
    {
        self.load_shields(dt);
        self.copy_shield_values();
        self.warp_all();
        self.kill_debris();
    }

    /// The energy labels to show: one for each ship, naming it.
    pub fn init_energy_display(&self) -> (r: Vec<EnergyDisplay>)
        ensures
            r@ == ship_labels(self.bodies@),
    {
        let n = self.bodies.len();
        let mut r: Vec<EnergyDisplay> = Vec::new();
        for i in 0..n
            invariant
                n == self.bodies.len(),
                r@ == ship_labels(self.bodies@.take(i as int)),
        {
            proof {
                assert(self.bodies@.take(i as int + 1).drop_last() =~= self.bodies@.take(i as int));
            }
            match self.bodies[i].kind {
                Kind::Ship { .. } => r.push(EnergyDisplay { ship: self.bodies[i].id }),
                _ => {},
            }
        }
        proof {
            assert(self.bodies@.take(n as int) =~= self.bodies@);
        }
        r
    }

    /// Debits one contact's damage from the body with the given id, if it has
    /// a shield; returns whether that body is now exhausted.
    fn hit_id(&mut self, id: u64) -> (exhausted_now: bool)
        requires
            old(self).wf(),
        ensures
            final(self).wf(),
            final(self).next_id == old(self).next_id,
            final(self).now == old(self).now,
            final(self).bodies@ == hit(old(self).bodies@, id),
            exhausted_now == exhausted(final(self).bodies@, id),
    {
        proof {
            lemma_hit_keeps_ids(self.bodies@, id, self.next_id as int);
        }
        match self.index_of(id) {
            Some(i) => {
                let mut b = self.bodies[i];
                match b.shield {
                    Some(mut sh) => {
                        sh.take_hit();
                        b.shield = Some(sh);
                        self.bodies.set(i, b);
                        assert(self.bodies@ =~= hit(old(self).bodies@, id));
                        let r = sh.energy < 0;
                        assert(r ==> exhausted(self.bodies@, id)) by {
                            if r {
                                assert(self.bodies@[i as int].shield == Some(sh));
                            }
                        }
                        r
                    },
                    None => {
                        assert(self.bodies@ =~= hit(old(self).bodies@, id));
                        false
                    },
                }
            },
            None => {
                assert(self.bodies@ =~= hit(old(self).bodies@, id));
                false
            },
        }
    }

    /// Whether the body with the given id is an asteroid.
    fn is_asteroid_id(&self, id: u64) -> (r: bool)
        requires
            self.wf(),
        ensures
            r == is_asteroid(self.bodies@, id),
    {
        match self.index_of(id) {
            Some(i) => match self.bodies[i].kind {
                Kind::Asteroid(_) => true,
                _ => false,
            },
            None => false,
        }
    }

    /// Applies the contacts of one tick in order: a contact between two
    /// asteroids does nothing; any other takes `CONTACT_DAMAGE` from each
    /// shielded body in it. Returns the id of each body left with an
    /// exhausted shield by a hit, once per such hit.
    pub fn check_collisions(&mut self, contacts: &Vec<Contact>) -> (events: Vec<u64>)
        requires
            old(self).wf(),
        ensures
            final(self).wf(),
            final(self).next_id == old(self).next_id,
            final(self).now == old(self).now,
            final(self).bodies@ == after_contacts(old(self).bodies@, contacts@).0,
            events@ == after_contacts(old(self).bodies@, contacts@).1,
    {
        let mut events: Vec<u64> = Vec::new();
        let n = contacts.len();
        for k in 0..n
            invariant
                n == contacts.len(),
                self.wf(),
                self.next_id == old(self).next_id,
                self.now == old(self).now,
                (self.bodies@, events@) == after_contacts(
                    old(self).bodies@,
                    contacts@.take(k as int),
                ),
        {
            let c = contacts[k];
            proof {
                assert(contacts@.take(k as int + 1).drop_last() =~= contacts@.take(k as int));
            }
            let both = self.is_asteroid_id(c.a) && self.is_asteroid_id(c.b);
            if !both {
                if self.hit_id(c.a) {
                    events.push(c.a);
                }
                if self.hit_id(c.b) {
                    events.push(c.b);
                }
            }
            proof {
                assert(events@ =~= after_contacts(old(self).bodies@, contacts@.take(k as int + 1)).1);
            }
        }
        proof {
            assert(contacts@.take(n as int) =~= contacts@);
        }
        events
    }
}

/// The impulse of `dt` milliseconds of thrust along one axis of a direction.
fn impulse_along(d: i64, dt: u64) -> (r: i64)
    requires
        -UNIT <= d <= UNIT,
    ensures
        r == thrust_impulse(d as int, dt as int),
{
    let k: i128 = THRUST_PER_MS as i128;
    let di: i128 = d as i128;
    assert(-100_000 <= di * k <= 100_000) by (nonlinear_arith)
        requires k == 100, -1000 <= di <= 1000;
    let a: i128 = di * k;
    let t: i128 = dt as i128;
    assert(-100_000 * (u64::MAX as int) <= a * t <= 100_000 * (u64::MAX as int)) by (nonlinear_arith)
        requires -100_000 <= a <= 100_000, 0 <= t <= u64::MAX;
    let p: i128 = a * t;
    if p < i64::MIN as i128 {
        i64::MIN
    } else if p > i64::MAX as i128 {
        i64::MAX
    } else {
        p as i64
    }
}

} // verus!
