use vstd::prelude::*;
use crate::components::{
    Direction, Gun, Position, Shield, Ship, Thruster, Velocity, ASTEROID_JITTER,
    ASTEROID_START_SCALE, ENERGY_FULL, PUFF_COUNT, SPLIT_COUNT,
};
use crate::world::{Body, Kind, World, after_kills, asteroid_body, has_id};

verus! {

/// Relies on `rand::Rng::gen_range` over `rand::thread_rng()`: a value drawn
/// from `[lo, hi)`. It panics on an empty range, which `requires` leaves out.
#[verifier::external_body]
fn random_in(lo: i64, hi: i64) -> (r: i64)
    requires
        lo < hi,
    ensures
        lo <= r < hi,
{
    rand::Rng::gen_range(&mut rand::thread_rng(), lo..hi)
}

/// A random position whose coordinates lie in `[lo, hi)`.
fn random_position(lo: i32, hi: i32) -> (p: Position)
    requires
        lo < hi,
    ensures
        lo <= p.x < hi,
        lo <= p.y < hi,
{
    let x = random_in(lo as i64, hi as i64);
    let y = random_in(lo as i64, hi as i64);
    Position { x: x as i32, y: y as i32 }
}

/// Random offsets for the asteroids of one split, each coordinate in
/// `[0, ASTEROID_JITTER)`.
pub fn draw_offsets() -> (r: Vec<Position>)
    ensures
        r.len() == SPLIT_COUNT,
        forall|k: int|
            0 <= k < r.len() ==> 0 <= (#[trigger] r[k]).x < ASTEROID_JITTER && 0 <= r[k].y
                < ASTEROID_JITTER,
{
    let mut r: Vec<Position> = Vec::new();
    for k in 0..SPLIT_COUNT
        invariant
            r.len() == k,
            forall|j: int|
                0 <= j < r.len() ==> 0 <= (#[trigger] r[j]).x < ASTEROID_JITTER && 0 <= r[j].y
                    < ASTEROID_JITTER,
    {
        r.push(random_position(0, ASTEROID_JITTER as i32));
    }
    r
}

/// Half the side of the square around the centre where the first asteroids appear.
pub const START_FIELD: i32 = 50 * 1000;

/// Where the two ships start, in thousandths of a pixel.
pub const SHIP_START_X: i32 = 100 * 1000;

/// Asteroids placed at the start of a match.
pub const START_ASTEROIDS: usize = 4;

/// A ship at rest with a full shield and idle gun and thruster.
pub open spec fn ship_body(id: u64, player: u8, x: int) -> Body {
    Body {
        id,
        kind: Kind::Ship {
            ship: Ship { player },
            gun: Gun { time: 0 },
            thruster: Thruster { thruster_time: 0 },
        },
        position: Position { x: x as i32, y: 0 },
        velocity: Velocity { x: 0, y: 0 },
        scale: 1000,
        shield: Some(Shield { energy: ENERGY_FULL }),
        lifetime: None,
    }
}

/// The visible shield of the ship with id `owner`, full.
pub open spec fn mirror_body(id: u64, owner: u64, x: int) -> Body {
    Body {
        id,
        kind: Kind::Mirror { owner },
        position: Position { x: x as i32, y: 0 },
        velocity: Velocity { x: 0, y: 0 },
        scale: 1000,
        shield: Some(Shield { energy: ENERGY_FULL }),
        lifetime: None,
    }
}

impl World {
    /// Starts a match: two ships, one on each side of the centre, each with
    /// its visible shield, then one asteroid at start scale at rest at each
    /// of `positions`.
    pub fn setup_with(positions: &Vec<Position>) -> (w: World)
        requires
            positions.len() + 4 <= u64::MAX,
        ensures
            w.wf(),
            w.now == 0,
            w.next_id == 4 + positions.len(),
            w.bodies@ == seq![
                ship_body(0, 0, -SHIP_START_X),
                mirror_body(1, 0, -SHIP_START_X),
                ship_body(2, 1, SHIP_START_X as int),
                mirror_body(3, 2, SHIP_START_X as int),
            ] + Seq::new(
                positions.len() as nat,
                |k: int|
                    asteroid_body(
                        (4 + k) as u64,
                        positions[k],
                        ASTEROID_START_SCALE,
                        Velocity { x: 0, y: 0 },
                    ),
            ),
    {
        let mut w = World::new();
        let mut player: u8 = 0;
        while player < 2
            invariant
                0 <= player <= 2,
                w.wf(),
                w.now == 0,
                w.next_id == 2 * player,
                w.bodies@.len() == 2 * player,
                player >= 1 ==> w.bodies@[0] == ship_body(0, 0, -SHIP_START_X) && w.bodies@[1]
                    == mirror_body(1, 0, -SHIP_START_X),
                player >= 2 ==> w.bodies@[2] == ship_body(2, 1, SHIP_START_X as int) && w.bodies@[3]
                    == mirror_body(3, 2, SHIP_START_X as int),
            decreases 2 - player,
        {
            let x = if player == 0 {
                -SHIP_START_X
            } else {
                SHIP_START_X
            };
            let ship = w.spawn(
                Body {
                    id: 0,
                    kind: Kind::Ship {
                        ship: Ship { player },
                        gun: Gun { time: 0 },
                        thruster: Thruster { thruster_time: 0 },
                    },
                    position: Position { x, y: 0 },
                    velocity: Velocity { x: 0, y: 0 },
                    scale: 1000,
                    shield: Some(Shield { energy: ENERGY_FULL }),
                    lifetime: None,
                },
            );
            w.spawn(
                Body {
                    id: 0,
                    kind: Kind::Mirror { owner: ship },
                    position: Position { x, y: 0 },
                    velocity: Velocity { x: 0, y: 0 },
                    scale: 1000,
                    shield: Some(Shield { energy: ENERGY_FULL }),
                    lifetime: None,
                },
            );
            player = player + 1;
        }
        let ghost head = w.bodies@;
        let ghost rocks = Seq::new(
            positions.len() as nat,
            |k: int|
                asteroid_body(
                    (4 + k) as u64,
                    positions[k],
                    ASTEROID_START_SCALE,
                    Velocity { x: 0, y: 0 },
                ),
        );
        let n = positions.len();
        for k in 0..n
            invariant
                n == positions.len(),
                n + 4 <= u64::MAX,
                w.wf(),
                w.now == 0,
                w.next_id == 4 + k,
                head.len() == 4,
                rocks.len() == n,
                forall|j: int|
                    0 <= j < n ==> #[trigger] rocks[j] == asteroid_body(
                        (4 + j) as u64,
                        positions[j],
                        ASTEROID_START_SCALE,
                        Velocity { x: 0, y: 0 },
                    ),
                w.bodies@ == head + rocks.take(k as int),
        {
            w.spawn_asteroid(positions[k], ASTEROID_START_SCALE, Velocity { x: 0, y: 0 });
            assert(rocks.take(k as int + 1) =~= rocks.take(k as int).push(rocks[k as int]));
        }
        assert(rocks.take(n as int) =~= rocks);
        assert(head =~= seq![
            ship_body(0, 0, -SHIP_START_X),
            mirror_body(1, 0, -SHIP_START_X),
            ship_body(2, 1, SHIP_START_X as int),
            mirror_body(3, 2, SHIP_START_X as int),
        ]);
        w
    }

    /// Starts a match with `START_ASTEROIDS` asteroids at random positions
    /// within `START_FIELD` of the centre on each axis.
    pub fn setupv3() -> (w: World)
        ensures
            w.wf(),
            w.now == 0,
            w.next_id == 4 + START_ASTEROIDS,
            w.bodies@.len() == 4 + START_ASTEROIDS,
            w.bodies@.take(4) == seq![
                ship_body(0, 0, -SHIP_START_X),
                mirror_body(1, 0, -SHIP_START_X),
                ship_body(2, 1, SHIP_START_X as int),
                mirror_body(3, 2, SHIP_START_X as int),
            ],
            forall|k: int|
                4 <= k < w.bodies@.len() ==> {
                    let b = #[trigger] w.bodies@[k];
                    &&& b == asteroid_body(
                        k as u64,
                        b.position,
                        ASTEROID_START_SCALE,
                        Velocity { x: 0, y: 0 },
                    )
                    &&& -START_FIELD <= b.position.x < START_FIELD
                    &&& -START_FIELD <= b.position.y < START_FIELD
                },
    {
        let mut positions: Vec<Position> = Vec::new();
        for k in 0..START_ASTEROIDS
            invariant
                positions.len() == k,
                forall|j: int|
                    0 <= j < positions.len() ==> -START_FIELD <= (#[trigger] positions[j]).x
                        < START_FIELD && -START_FIELD <= positions[j].y < START_FIELD,
        {
            positions.push(random_position(-START_FIELD, START_FIELD));
        }
        let w = World::setup_with(&positions);
        assert(w.bodies@.take(4) =~= seq![
            ship_body(0, 0, -SHIP_START_X),
            mirror_body(1, 0, -SHIP_START_X),
            ship_body(2, 1, SHIP_START_X as int),
            mirror_body(3, 2, SHIP_START_X as int),
        ]);
        w
    }

    /// Carries out a tick's destruction events in order: the `j`-th destroys
    /// the body named `events[j]` (see `World::destroy`) with the split
    /// offsets `offsets[j]` and the puff directions `directions[j]`. Every
    /// named body that existed is gone afterwards (an id named twice is
    /// destroyed once), and every body that no event names is still there.
    pub fn kill_with(
        &mut self,
        events: &Vec<u64>,
        offsets: &Vec<Vec<Position>>,
        directions: &Vec<Vec<Direction>>,
    )
        requires
            old(self).wf(),
            offsets.len() == events.len(),
            directions.len() == events.len(),
            old(self).next_id + (SPLIT_COUNT + PUFF_COUNT) * events.len() <= u64::MAX,
            forall|j: int| 0 <= j < offsets.len() ==> (#[trigger] offsets[j]).len() == SPLIT_COUNT,
            forall|j: int|
                0 <= j < directions.len() ==> (#[trigger] directions[j]).len() == PUFF_COUNT,
            forall|j: int, k: int|
                0 <= j < directions.len() && 0 <= k < PUFF_COUNT ==> (
                #[trigger] directions[j][k]).valid(),
        ensures
            final(self).wf(),
            final(self).now == old(self).now,
            (final(self).bodies@, final(self).next_id as int) == after_kills(
                old(self).bodies@,
                old(self).next_id as int,
                old(self).now,
                events@,
                offsets@.map_values(|v: Vec<Position>| v@),
                directions@.map_values(|v: Vec<Direction>| v@),
            ),
            forall|j: int|
                0 <= j < events.len() && events[j] < old(self).next_id ==> !has_id(
                    final(self).bodies@,
                    #[trigger] events[j],
                ),
            forall|k: int|
                0 <= k < old(self).bodies.len() && !events@.contains(old(self).bodies[k].id)
                    ==> final(self).bodies@.contains(#[trigger] old(self).bodies[k]),
    {
        let n = events.len();
        for j in 0..n
            invariant
                n == events.len(),
                n == directions.len(),
                n == offsets.len(),
                self.wf(),
                self.now == old(self).now,
                old(self).next_id <= self.next_id,
                forall|i: int| 0 <= i < offsets.len() ==> (#[trigger] offsets[i]).len() == SPLIT_COUNT,
                (self.bodies@, self.next_id as int) == after_kills(
                    old(self).bodies@,
                    old(self).next_id as int,
                    old(self).now,
                    events@.take(j as int),
                    offsets@.map_values(|v: Vec<Position>| v@),
                    directions@.map_values(|v: Vec<Direction>| v@),
                ),
                self.next_id + (SPLIT_COUNT + PUFF_COUNT) * (n - j) <= u64::MAX,
                forall|i: int|
                    0 <= i < directions.len() ==> (#[trigger] directions[i]).len() == PUFF_COUNT,
                forall|i: int, k: int|
                    0 <= i < directions.len() && 0 <= k < PUFF_COUNT ==> (
                    #[trigger] directions[i][k]).valid(),
                forall|i: int|
                    0 <= i < j && events[i] < old(self).next_id ==> !has_id(
                        self.bodies@,
                        #[trigger] events[i],
                    ),
                forall|k: int|
                    0 <= k < old(self).bodies.len() && !events@.take(j as int).contains(
                        old(self).bodies[k].id,
                    ) ==> self.bodies@.contains(#[trigger] old(self).bodies[k]),
        {
            let ghost before = self.bodies@;
            let ghost next_before = self.next_id;
            proof {
                assert((SPLIT_COUNT + PUFF_COUNT) * (n - j) == (SPLIT_COUNT + PUFF_COUNT) + (
                SPLIT_COUNT + PUFF_COUNT) * (n - (j + 1))) by (nonlinear_arith);
            }
            let e = events[j];
            self.destroy(e, &offsets[j], &directions[j]);
            proof {
                let after = self.bodies@;
                assert(events@.take(j + 1).drop_last() =~= events@.take(j as int));
                assert(events@.take(j + 1)[j as int] == e);
                assert forall|i: int|
                    0 <= i <= j && events[i] < old(self).next_id implies !has_id(
                        after,
                        #[trigger] events[i],
                    ) by {
                    if i < j && events[i] != e {
                        if has_id(after, events[i]) {
                            let p = choose|p: int| 0 <= p < after.len() && after[p].id == events[i];
                            if !(next_before <= after[p].id) {
                                let q = choose|q: int| 0 <= q < before.len() && before[q] == after[p];
                                assert(has_id(before, events[i]));
                            }
                        }
                    }
                }
                assert forall|k: int|
                    0 <= k < old(self).bodies.len() && !events@.take(j + 1).contains(
                        old(self).bodies[k].id,
                    ) implies after.contains(#[trigger] old(self).bodies[k]) by {
                    assert(events@.take(j + 1) =~= events@.take(j as int).push(e));
                    assert(events@.take(j + 1)[j as int] == e);
                    assert(!events@.take(j as int).contains(old(self).bodies[k].id)) by {
                        if events@.take(j as int).contains(old(self).bodies[k].id) {
                            let t = choose|t: int| 0 <= t < j && events@.take(j as int)[t] == old(self).bodies[k].id;
                            assert(events@.take(j + 1)[t] == old(self).bodies[k].id);
                        }
                    }
                    assert(before.contains(old(self).bodies[k]));
                }
            }
        }
        proof {
            assert(events@.take(n as int) =~= events@);
        }
    }

    /// Carries out a tick's destruction events in order, each asteroid split
    /// with its own random offsets (each coordinate in `[0, ASTEROID_JITTER)`)
    /// and each body's puffs along its four `directions`: the result is that
    /// of `kill_with` for some such offsets.
    pub fn kill(&mut self, events: &Vec<u64>, directions: &Vec<Vec<Direction>>)
        requires
            old(self).wf(),
            directions.len() == events.len(),
            old(self).next_id + (SPLIT_COUNT + PUFF_COUNT) * events.len() <= u64::MAX,
            forall|j: int|
                0 <= j < directions.len() ==> (#[trigger] directions[j]).len() == PUFF_COUNT,
            forall|j: int, k: int|
                0 <= j < directions.len() && 0 <= k < PUFF_COUNT ==> (
                #[trigger] directions[j][k]).valid(),
        ensures
            final(self).wf(),
            final(self).now == old(self).now,
            exists|offs: Seq<Seq<Position>>|
                {
                    &&& offs.len() == events.len()
                    &&& forall|j: int, k: int|
                        0 <= j < offs.len() && 0 <= k < SPLIT_COUNT ==> {
                            let p = #[trigger] offs[j][k];
                            &&& 0 <= p.x < ASTEROID_JITTER
                            &&& 0 <= p.y < ASTEROID_JITTER
                        }
                    &&& forall|j: int| 0 <= j < offs.len() ==> (#[trigger] offs[j]).len() == SPLIT_COUNT
                    &&& (final(self).bodies@, final(self).next_id as int) == after_kills(
                        old(self).bodies@,
                        old(self).next_id as int,
                        old(self).now,
                        events@,
                        offs,
                        directions@.map_values(|v: Vec<Direction>| v@),
                    )
                },
            forall|j: int|
                0 <= j < events.len() && events[j] < old(self).next_id ==> !has_id(
                    final(self).bodies@,
                    #[trigger] events[j],
                ),
            forall|k: int|
                0 <= k < old(self).bodies.len() && !events@.contains(old(self).bodies[k].id)
                    ==> final(self).bodies@.contains(#[trigger] old(self).bodies[k]),
    {
        let n = events.len();
        let mut offsets: Vec<Vec<Position>> = Vec::new();
        for j in 0..n
            invariant
                offsets.len() == j,
                forall|i: int| 0 <= i < offsets.len() ==> (#[trigger] offsets[i]).len() == SPLIT_COUNT,
                forall|i: int, k: int|
                    0 <= i < offsets.len() && 0 <= k < SPLIT_COUNT ==> {
                        let p = #[trigger] offsets[i][k];
                        &&& 0 <= p.x < ASTEROID_JITTER
                        &&& 0 <= p.y < ASTEROID_JITTER
                    },
        {
            offsets.push(draw_offsets());
        }
        self.kill_with(events, &offsets, directions);
        proof {
            let offs = offsets@.map_values(|v: Vec<Position>| v@);
            assert forall|j: int, k: int|
                0 <= j < offs.len() && 0 <= k < SPLIT_COUNT implies {
                    let p = #[trigger] offs[j][k];
                    &&& 0 <= p.x < ASTEROID_JITTER
                    &&& 0 <= p.y < ASTEROID_JITTER
                } by {
                assert(offs[j] == offsets[j]@);
                assert(offsets[j]@[k] == offsets[j][k]);
            }
            assert(forall|j: int| 0 <= j < offs.len() ==> (#[trigger] offs[j]).len() == SPLIT_COUNT);
            assert(offs.len() == events.len());
            assert((self.bodies@, self.next_id as int) == after_kills(
                old(self).bodies@,
                old(self).next_id as int,
                old(self).now,
                events@,
                offs,
                directions@.map_values(|v: Vec<Direction>| v@),
            ));
        }
    }
}

} // verus!
