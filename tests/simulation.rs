use spacewar::components::{
    Asteroid, Direction, Gun, Lifetime, Position, Shield, Ship, Thruster, Velocity, ENERGY_FULL,
};
use spacewar::controls::{
    get_key_config_for, held_controls, quit_requested, steer, steering_config, Held, Key,
};
use spacewar::gravity::{apply_gravity, pair_force, MassPoint};
use spacewar::lifecycle::draw_offsets;
use spacewar::components::ASTEROID_JITTER;
use spacewar::shield::arrange_energy_display;
use spacewar::topology::{warp_space, wrap_coordinate};
use spacewar::world::{Body, Contact, Kind, World};

fn mass(x: i32, y: i32, m: u32) -> MassPoint {
    MassPoint { position: Position { x, y }, mass: m }
}

fn plain(kind: Kind, x: i32, y: i32, shield: Option<Shield>) -> Body {
    Body {
        id: 0,
        kind,
        position: Position { x, y },
        velocity: Velocity { x: 0, y: 0 },
        scale: 1000,
        shield,
        lifetime: None,
    }
}

fn ship(player: u8, energy: i64) -> Body {
    plain(
        Kind::Ship { ship: Ship { player }, gun: Gun { time: 0 }, thruster: Thruster { thruster_time: 0 } },
        0,
        0,
        Some(Shield { energy }),
    )
}

fn shot() -> Body {
    plain(Kind::Debris(spacewar::components::Debris), 0, 0, None)
}

fn north() -> Direction {
    Direction { x: 0, y: 1000 }
}

fn four_directions() -> Vec<Direction> {
    vec![
        Direction { x: 1000, y: 0 },
        Direction { x: 0, y: 1000 },
        Direction { x: -1000, y: 0 },
        Direction { x: 0, y: -1000 },
    ]
}

#[test]
fn gravity_pair_is_attractive_and_inverse_square() {
    let a = mass(0, 0, 1000);
    let b = mass(1000, 0, 1000);
    let f = pair_force(&a, &b);
    assert_eq!((f.x, f.y), (300, 0));
    let g = pair_force(&b, &a);
    assert_eq!((g.x, g.y), (-300, 0));
    // twice the distance: a quarter of the pull
    let c = mass(2000, 0, 1000);
    assert_eq!(pair_force(&a, &c).x, 75);
    // twice one mass: twice the pull
    let d = mass(1000, 0, 2000);
    assert_eq!(pair_force(&a, &d).x, 600);
}

#[test]
fn gravity_coincident_bodies_feel_nothing() {
    let a = mass(500, -500, 4000);
    let f = pair_force(&a, &a);
    assert_eq!((f.x, f.y), (0, 0));
    let forces = apply_gravity(&vec![a, a]);
    assert_eq!((forces[0].x, forces[0].y, forces[1].x, forces[1].y), (0, 0, 0, 0));
}

#[test]
fn gravity_sums_over_all_other_bodies() {
    let bodies = vec![mass(0, 0, 1000), mass(1000, 0, 1000), mass(0, -1000, 1000), mass(0, 0, 0)];
    let forces = apply_gravity(&bodies);
    assert_eq!(forces.len(), 4);
    assert_eq!((forces[0].x, forces[0].y), (300, -300));
    assert_eq!((forces[1].x, forces[1].y), (-406, -106));
    // a massless body feels nothing and pulls on nothing
    assert_eq!((forces[3].x, forces[3].y), (0, 0));
}

#[test]
fn gravity_extreme_masses_and_distances_stay_finite() {
    let a = mass(i32::MIN, i32::MIN, u32::MAX);
    let b = mass(i32::MIN, i32::MIN + 1, u32::MAX);
    let f = pair_force(&a, &b);
    assert_eq!(f.x, 0);
    assert_eq!(f.y, 300 * (u32::MAX as i128) * (u32::MAX as i128));
    let far = pair_force(&mass(i32::MIN, 0, 1), &mass(i32::MAX, 0, 1));
    assert_eq!(far.x, 0);
}

#[test]
fn shield_regenerates_linearly_up_to_full() {
    let mut s = Shield { energy: 500_000 };
    for _ in 0..10 {
        s.load_shield(100);
    }
    assert_eq!(s.energy, 700_000);
    s.load_shield(1400);
    assert_eq!(s.energy, 980_000);
    for _ in 0..10 {
        s.load_shield(100);
    }
    assert_eq!(s.energy, ENERGY_FULL);
    s.load_shield(u64::MAX);
    assert_eq!(s.energy, ENERGY_FULL);
}

#[test]
fn exhausted_shield_does_not_regenerate() {
    let mut s = Shield { energy: -100_000 };
    s.load_shield(1000);
    assert_eq!(s.energy, -100_000);
    assert!(s.is_exhausted());
}

#[test]
fn shield_hits_and_display() {
    let mut s = Shield { energy: 300_000 };
    assert!(!s.take_hit());
    assert_eq!(s.energy, 100_000);
    assert!(s.take_hit());
    assert_eq!(s.energy, -100_000);
    let mut floor = Shield { energy: i64::MIN + 1 };
    assert!(floor.take_hit());
    assert_eq!(floor.energy, i64::MIN);
    assert_eq!(Shield { energy: 555_000 }.percent(), 55);
    assert_eq!(Shield { energy: ENERGY_FULL }.percent(), 100);
    assert_eq!(Shield { energy: -100_000 }.percent(), -10);
    assert_eq!(Shield { energy: -105_000 }.percent(), -11);
    assert_eq!(Shield { energy: -1 }.alpha(), 0);
    assert_eq!(Shield { energy: 550_000 }.alpha(), 550_000);
    let shown = arrange_energy_display(Position { x: 1000, y: 2000 }, &Shield { energy: 420_000 });
    assert!(!shown.remove);
    assert_eq!((shown.position.x, shown.position.y, shown.percent), (-19_000, 32_000, 42));
    let gone = arrange_energy_display(Position { x: 0, y: 0 }, &Shield { energy: -1 });
    assert!(gone.remove);
}

#[test]
fn wrap_brings_far_excursions_back() {
    assert_eq!(wrap_coordinate(0), 0);
    assert_eq!(wrap_coordinate(400_000), 400_000);
    assert_eq!(wrap_coordinate(-400_000), -400_000);
    assert_eq!(wrap_coordinate(400_001), -399_999);
    assert_eq!(wrap_coordinate(-400_001), 399_999);
    assert_eq!(wrap_coordinate(1_200_000), 400_000);
    assert_eq!(wrap_coordinate(-1_200_000), -400_000);
    assert_eq!(wrap_coordinate(1_100_000), 300_000);
    let p = warp_space(Position { x: 900_000, y: -900_000 });
    assert_eq!((p.x, p.y), (100_000, -100_000));
    for c in [-1_200_000, -800_000, -400_001, 0, 399_999, 800_000, 1_200_000] {
        let w = wrap_coordinate(c);
        assert!(-400_000 <= w && w <= 400_000);
    }
}

#[test]
fn two_hits_in_one_tick_raise_one_event_and_ship_is_removed() {
    let mut w = World::new();
    let s = w.spawn(ship(0, 300_000));
    let a = w.spawn(shot());
    let b = w.spawn(shot());
    let events = w.check_collisions(&vec![Contact { a: s, b: a }, Contact { a: b, b: s }]);
    assert_eq!(events, vec![s]);
    let i = w.index_of(s).unwrap();
    assert_eq!(w.bodies[i].shield.unwrap().energy, -100_000);
    let dirs = vec![four_directions(); events.len()];
    w.kill(&events, &dirs);
    assert!(w.index_of(s).is_none());
    assert!(w.index_of(a).is_some());
    assert!(w.index_of(b).is_some());
}

#[test]
fn asteroids_do_not_damage_each_other() {
    let mut w = World::new();
    let a = w.spawn_asteroid(Position { x: 0, y: 0 }, 4000, Velocity { x: 0, y: 0 });
    let b = w.spawn_asteroid(Position { x: 10, y: 0 }, 4000, Velocity { x: 0, y: 0 });
    let s = w.spawn(ship(1, ENERGY_FULL));
    let events = w.check_collisions(&vec![Contact { a, b }]);
    assert!(events.is_empty());
    assert_eq!(w.bodies[0].shield.unwrap().energy, 100_000);
    let events = w.check_collisions(&vec![Contact { a, b: s }]);
    assert_eq!(events, vec![a]);
    assert_eq!(w.bodies[0].shield.unwrap().energy, -100_000);
    assert_eq!(w.bodies[2].shield.unwrap().energy, 800_000);
}

#[test]
fn contact_with_missing_body_is_ignored() {
    let mut w = World::new();
    let s = w.spawn(ship(0, 150_000));
    let events = w.check_collisions(&vec![Contact { a: s, b: 99 }]);
    assert_eq!(events, vec![s]);
    assert!(!w.despawn(99));
    assert!(w.despawn(s));
    assert!(!w.despawn(s));
    assert!(w.bodies.is_empty());
}

#[test]
fn large_asteroid_splits_into_four_half_size() {
    let mut w = World::new();
    w.now = 2000;
    let id = w.spawn_asteroid(Position { x: 1000, y: 2000 }, 4000, Velocity { x: 7, y: -3 });
    let offsets = vec![
        Position { x: 0, y: 0 },
        Position { x: 1, y: 2 },
        Position { x: 19_999, y: 5 },
        Position { x: 3, y: 19_999 },
    ];
    assert!(w.destroy(id, &offsets, &four_directions()));
    assert_eq!(w.bodies.len(), 8);
    assert!(w.index_of(id).is_none());
    for k in 0..4 {
        let c = w.bodies[k];
        assert_eq!(c.kind, Kind::Asteroid(Asteroid));
        assert_eq!(c.scale, 2000);
        assert_eq!(c.id, 1 + k as u64);
        assert_eq!((c.position.x, c.position.y), (1000 + offsets[k].x, 2000 + offsets[k].y));
        assert_eq!((c.velocity.x, c.velocity.y), (7, -3));
        assert_eq!(c.shield, Some(Shield { energy: 100_000 }));
    }
    let puff = w.bodies[4];
    assert_eq!(puff.lifetime, Some(Lifetime { death: 2500 }));
    assert_eq!((puff.velocity.x, puff.velocity.y), (7 + 50_000, -3));
    assert_eq!((puff.position.x, puff.position.y), (1000, 2000));
    let puff = w.bodies[7];
    assert_eq!((puff.velocity.x, puff.velocity.y), (7, -3 - 50_000));
    assert_eq!(w.next_id, 9);
}

#[test]
fn smallest_asteroid_leaves_only_debris() {
    let mut w = World::new();
    let id = w.spawn_asteroid(Position { x: 0, y: 0 }, 1000, Velocity { x: 0, y: 0 });
    assert!(w.destroy(id, &draw_offsets(), &four_directions()));
    assert_eq!(w.bodies.len(), 4);
    assert!(w.bodies.iter().all(|b| b.kind == Kind::Debris(spacewar::components::Debris)));
    // a second destruction of the same id does nothing
    assert!(!w.destroy(id, &draw_offsets(), &four_directions()));
    assert_eq!(w.bodies.len(), 4);
}

#[test]
fn splitting_stops_at_minimum_scale() {
    let mut w = World::new();
    w.spawn_asteroid(Position { x: 0, y: 0 }, 4000, Velocity { x: 0, y: 0 });
    let mut rounds = 0;
    loop {
        let rocks: Vec<u64> = w
            .bodies
            .iter()
            .filter(|b| matches!(b.kind, Kind::Asteroid(_)))
            .map(|b| b.id)
            .collect();
        if rocks.is_empty() {
            break;
        }
        let dirs = vec![four_directions(); rocks.len()];
        w.kill(&rocks, &dirs);
        rounds += 1;
        assert!(rounds <= 3);
    }
    // 4000 -> 2000 -> 1000 -> gone: 1 + 4 + 16 asteroids destroyed
    assert_eq!(rounds, 3);
    assert_eq!(w.bodies.len(), 21 * 4);
}

#[test]
fn transient_bodies_expire_at_their_death_time() {
    let mut w = World::new();
    w.now = 1000;
    let d = w.spawn_debris(Position { x: 0, y: 0 }, Velocity { x: 0, y: 0 });
    let p = w.spawn_shot(Position { x: 0, y: 0 }, Velocity { x: 0, y: 0 });
    let s = w.spawn(ship(0, ENERGY_FULL));
    w.advance_clock(499);
    w.kill_debris();
    assert!(w.index_of(d).is_some());
    w.advance_clock(1);
    w.kill_debris();
    assert!(w.index_of(d).is_none());
    assert!(w.index_of(p).is_some());
    w.advance_clock(499);
    w.kill_debris();
    assert!(w.index_of(p).is_some());
    w.advance_clock(1);
    w.kill_debris();
    assert!(w.index_of(p).is_none());
    assert!(w.index_of(s).is_some());
    w.advance_clock(u64::MAX);
    assert_eq!(w.now, u64::MAX);
}

#[test]
fn holding_fire_for_two_reloads_fires_twice() {
    let mut w = World::new();
    let s = w.spawn(ship(0, ENERGY_FULL));
    for _ in 0..40 {
        let st = w.input_handler(s, &vec![Key::Space], 10, north(), north());
        assert!(st.is_some());
    }
    let shots = w.bodies.iter().filter(|b| b.lifetime.is_some()).count();
    assert_eq!(shots, 2);
    let first = w.bodies[1];
    assert_eq!((first.position.x, first.position.y), (0, 1000));
    assert_eq!((first.velocity.x, first.velocity.y), (0, 400_000));
    assert_eq!(first.lifetime, Some(Lifetime { death: 1000 }));
}

#[test]
fn gun_cooldown_in_isolation() {
    let mut gun = Gun { time: 0 };
    let mut thruster = Thruster { thruster_time: 0 };
    let held = Held { thrust: false, left: false, right: false, shoot: true };
    let mut fired = 0;
    for _ in 0..40 {
        if steer(&mut gun, &mut thruster, held, 10).fire {
            fired += 1;
        }
    }
    assert_eq!(fired, 2);
    let mut idle = Gun { time: i64::MIN + 5 };
    let r = steer(&mut idle, &mut thruster, Held { shoot: false, ..held }, 10);
    assert!(!r.fire);
    assert_eq!(idle.time, i64::MIN);
}

#[test]
fn thrust_turn_and_exhaust() {
    let mut w = World::new();
    let s = w.spawn(ship(1, ENERGY_FULL));
    let st = w.input_handler(s, &vec![Key::KeyW, Key::KeyA], 30, north(), north()).unwrap();
    assert_eq!((st.impulse.x, st.impulse.y), (0, 3_000_000));
    assert_eq!(st.angvel, 5000);
    assert_eq!(w.bodies.len(), 1);
    let st = w.input_handler(s, &vec![Key::KeyW, Key::KeyD], 30, north(), north()).unwrap();
    assert_eq!(st.angvel, -5000);
    assert_eq!(w.bodies.len(), 2);
    let puff = w.bodies[1];
    assert_eq!((puff.velocity.x, puff.velocity.y), (0, -200_000));
    match w.bodies[0].kind {
        Kind::Ship { thruster, .. } => assert_eq!(thruster.thruster_time, 10),
        _ => panic!("not a ship"),
    }
    let st = w.input_handler(s, &vec![], 30, north(), north()).unwrap();
    assert_eq!((st.impulse.x, st.impulse.y, st.angvel), (0, 0, 0));
}

#[test]
fn unbound_player_and_missing_ship_get_no_control() {
    let mut w = World::new();
    let s = w.spawn(ship(7, ENERGY_FULL));
    assert!(w.input_handler(s, &vec![Key::Space], 10, north(), north()).is_none());
    assert!(w.input_handler(42, &vec![Key::Space], 10, north(), north()).is_none());
    assert_eq!(w.bodies.len(), 1);
}

#[test]
fn key_table() {
    let table = steering_config();
    assert_eq!(table.len(), 2);
    let first = get_key_config_for(0).unwrap();
    assert_eq!((first.thrust, first.left, first.right, first.shoot), (Key::ArrowUp, Key::ArrowLeft, Key::ArrowRight, Key::Space));
    let second = get_key_config_for(1).unwrap();
    assert_eq!((second.thrust, second.left, second.right, second.shoot), (Key::KeyW, Key::KeyA, Key::KeyD, Key::KeyS));
    assert!(get_key_config_for(2).is_none());
    let held = held_controls(&second, &vec![Key::KeyS, Key::ArrowUp]);
    assert_eq!(held, Held { thrust: false, left: false, right: false, shoot: true });
    assert!(quit_requested(&vec![Key::KeyQ]));
    assert!(!quit_requested(&vec![Key::Space]));
}

#[test]
fn mirrored_shield_follows_its_ship() {
    let mut w = World::setupv3();
    let ship_index = w.index_of(0).unwrap();
    let mut b = w.bodies[ship_index];
    b.shield = Some(Shield { energy: 550_000 });
    w.bodies[ship_index] = b;
    w.copy_shield_values();
    let mirror = w.bodies[w.index_of(1).unwrap()];
    assert_eq!(mirror.kind, Kind::Mirror { owner: 0 });
    let shield = mirror.shield.unwrap();
    assert_eq!(shield.energy, 550_000);
    assert_eq!(shield.alpha(), 550_000);
    // the other ship's mirror is untouched
    assert_eq!(w.bodies[3].shield.unwrap().energy, ENERGY_FULL);
}

#[test]
fn mirrors_do_not_regenerate_on_their_own() {
    let mut w = World::new();
    let s = w.spawn(ship(0, 100_000));
    let m = w.spawn(plain(Kind::Mirror { owner: s }, 0, 0, Some(Shield { energy: 100_000 })));
    let r = w.spawn_asteroid(Position { x: 0, y: 0 }, 2000, Velocity { x: 0, y: 0 });
    w.load_shields(1000);
    assert_eq!(w.bodies[0].shield.unwrap().energy, 300_000);
    assert_eq!(w.bodies[1].shield.unwrap().energy, 100_000);
    assert_eq!(w.bodies[2].shield.unwrap().energy, 300_000);
    w.copy_shield_values();
    assert_eq!(w.bodies[w.index_of(m).unwrap()].shield.unwrap().energy, 300_000);
    assert!(w.index_of(r).is_some());
}

#[test]
fn match_setup_places_ships_and_asteroids() {
    let w = World::setupv3();
    assert_eq!(w.bodies.len(), 8);
    assert_eq!((w.bodies[0].position.x, w.bodies[2].position.x), (-100_000, 100_000));
    assert_eq!(w.bodies[1].kind, Kind::Mirror { owner: 0 });
    assert_eq!(w.bodies[3].kind, Kind::Mirror { owner: 2 });
    for b in &w.bodies[4..] {
        assert_eq!(b.kind, Kind::Asteroid(Asteroid));
        assert_eq!(b.scale, 4000);
        assert!(-50_000 <= b.position.x && b.position.x < 50_000);
        assert!(-50_000 <= b.position.y && b.position.y < 50_000);
    }
    let labels = w.init_energy_display();
    assert_eq!(labels.len(), 2);
    assert_eq!((labels[0].ship, labels[1].ship), (0, 2));
    let fixed = World::setup_with(&vec![Position { x: 5, y: 6 }]);
    assert_eq!(fixed.bodies.len(), 5);
    assert_eq!((fixed.bodies[4].position.x, fixed.bodies[4].position.y), (5, 6));
}

#[test]
fn random_offsets_stay_in_range() {
    let mut seen = std::collections::HashSet::new();
    for _ in 0..50 {
        let o = draw_offsets();
        assert_eq!(o.len(), 4);
        for p in o {
            assert!(0 <= p.x && p.x < 20_000 && 0 <= p.y && p.y < 20_000);
            seen.insert((p.x, p.y));
        }
    }
    // 200 draws from 400 million values: they are not all the same
    assert!(seen.len() > 1);
}

#[test]
fn wrap_pass_moves_every_body() {
    let mut w = World::new();
    w.spawn(plain(Kind::Moon(spacewar::components::Moon {}), 1_000_000, -1_000_000, None));
    w.spawn(plain(Kind::Debris(spacewar::components::Debris), 10, 20, None));
    w.warp_all();
    assert_eq!((w.bodies[0].position.x, w.bodies[0].position.y), (200_000, -200_000));
    assert_eq!((w.bodies[1].position.x, w.bodies[1].position.y), (10, 20));
}

#[test]
fn velocity_launch_saturates() {
    let v = Velocity { x: i64::MAX - 10, y: 0 }.launched(Direction { x: 1000, y: -1000 }, 400);
    assert_eq!((v.x, v.y), (i64::MAX, -400_000));
}

#[test]
fn finishing_a_tick_runs_the_passes_in_order() {
    let mut w = World::new();
    let s = w.spawn(ship(0, 500_000));
    let m = w.spawn(plain(Kind::Mirror { owner: s }, 0, 0, Some(Shield { energy: 500_000 })));
    w.now = 100;
    let d = w.spawn_debris(Position { x: 500_000, y: 0 }, Velocity { x: 0, y: 0 });
    let far = w.spawn(plain(Kind::Moon(spacewar::components::Moon {}), 0, -700_000, None));
    w.finish_tick(10);
    assert_eq!(w.bodies[w.index_of(s).unwrap()].shield.unwrap().energy, 502_000);
    assert_eq!(w.bodies[w.index_of(m).unwrap()].shield.unwrap().energy, 502_000);
    let i = w.index_of(d).unwrap();
    assert_eq!(w.bodies[i].position.x, -300_000);
    assert_eq!(w.bodies[w.index_of(far).unwrap()].position.y, 100_000);
    w.advance_clock(500);
    w.finish_tick(500);
    assert!(w.index_of(d).is_none());
    assert_eq!(w.bodies[w.index_of(s).unwrap()].shield.unwrap().energy, 602_000);
}

#[test]
fn mirror_of_a_non_ship_keeps_its_energy() {
    let mut w = World::new();
    let rock = w.spawn_asteroid(Position { x: 0, y: 0 }, 2000, Velocity { x: 0, y: 0 });
    let m = w.spawn(plain(Kind::Mirror { owner: rock }, 0, 0, Some(Shield { energy: 700_000 })));
    let lost = w.spawn(plain(Kind::Mirror { owner: 99 }, 0, 0, Some(Shield { energy: 600_000 })));
    w.copy_shield_values();
    assert_eq!(w.bodies[w.index_of(m).unwrap()].shield.unwrap().energy, 700_000);
    assert_eq!(w.bodies[w.index_of(lost).unwrap()].shield.unwrap().energy, 600_000);
    assert_eq!(w.bodies[w.index_of(rock).unwrap()].shield.unwrap().energy, 100_000);
}

#[test]
fn kill_with_given_offsets_splits_and_puffs() {
    let mut w = World::new();
    w.now = 300;
    let rock = w.spawn_asteroid(Position { x: 0, y: 0 }, 2000, Velocity { x: 5, y: 0 });
    let offsets = vec![vec![
        Position { x: 1, y: 1 },
        Position { x: 2, y: 2 },
        Position { x: 3, y: 3 },
        Position { x: 4, y: 4 },
    ]];
    w.kill_with(&vec![rock], &offsets, &vec![four_directions()]);
    assert_eq!(w.bodies.len(), 8);
    for k in 0..4 {
        assert_eq!(w.bodies[k].kind, Kind::Asteroid(Asteroid));
        assert_eq!(w.bodies[k].scale, 1000);
        assert_eq!((w.bodies[k].position.x, w.bodies[k].position.y), (k as i32 + 1, k as i32 + 1));
        assert_eq!(w.bodies[4 + k].lifetime, Some(Lifetime { death: 800 }));
    }
}

#[test]
fn repeated_destruction_event_spawns_once() {
    let mut w = World::new();
    let rock = w.spawn_asteroid(Position { x: 0, y: 0 }, 4000, Velocity { x: 0, y: 0 });
    w.kill(&vec![rock, rock], &vec![four_directions(), four_directions()]);
    assert_eq!(w.bodies.len(), 8);
    assert_eq!(w.next_id, 9);
    assert!(w.index_of(rock).is_none());
    for b in &w.bodies[..4] {
        assert_eq!(b.scale, 2000);
        assert!(0 <= b.position.x && (b.position.x as i64) < ASTEROID_JITTER);
        assert!(0 <= b.position.y && (b.position.y as i64) < ASTEROID_JITTER);
    }
}

#[test]
fn destroyed_ship_leaves_four_puffs_and_no_asteroid() {
    let mut w = World::new();
    w.now = 1000;
    let s = w.spawn(ship(0, -100_000));
    w.kill(&vec![s], &vec![four_directions()]);
    assert!(w.index_of(s).is_none());
    assert_eq!(w.bodies.len(), 4);
    for b in &w.bodies {
        assert_eq!(b.kind, Kind::Debris(spacewar::components::Debris));
        assert_eq!(b.lifetime, Some(Lifetime { death: 1500 }));
    }
}
