//! Respawn, the tick orchestrator and explosion bookkeeping.

use rec_wars::config::Config;
use rec_wars::entities::{Explosion, Player, Vehicle};
use rec_wars::game::{collect_explosions, respawning, tick, GameState};
use rec_wars::input::Input;
use rec_wars::rng::rng_from_seed;
use rec_wars::tilemap::TileMap;
use rec_wars::vec2::Vec2;

fn open_map_with_spawn(w: usize, h: usize, spawn: (Vec2, i64)) -> TileMap {
    TileMap::make(w, h, vec![false; w * h], vec![spawn]).unwrap()
}

#[test]
fn holding_fire_without_a_vehicle_spawns_a_fresh_one() {
    let cfg = Config::preset();
    let spawn = (Vec2 { x: 160_000, y: 160_000 }, 1_571i64);
    let map = open_map_with_spawn(10, 10, spawn);
    let mut rng = rng_from_seed(4);
    let mut players = vec![Player {
        vehicle: None,
        guided_missile: None,
        input: Input { fire: true, ..Input::neutral() },
        input_prev: Input::neutral(),
    }];
    respawning(&cfg, &map, &mut rng, &mut players, true);
    let v = players[0].vehicle.as_ref().expect("vehicle spawned");
    // The single designated spawn location is the only choice.
    assert_eq!(v.body.pos, spawn.0);
    assert_eq!(v.body.angle, spawn.1);
    assert_eq!(v.hp, cfg.max_hp(v.kind));
    assert_eq!(v.body.vel, Vec2 { x: 0, y: 0 });
    assert_eq!(v.turret_angle, 0);
}

#[test]
fn no_fire_means_no_respawn() {
    let cfg = Config::preset();
    let map = open_map_with_spawn(10, 10, (Vec2 { x: 160_000, y: 160_000 }, 0));
    let mut rng = rng_from_seed(4);
    let mut players = vec![Player {
        vehicle: None,
        guided_missile: None,
        input: Input::neutral(),
        input_prev: Input::neutral(),
    }];
    respawning(&cfg, &map, &mut rng, &mut players, true);
    assert!(players[0].vehicle.is_none());
}

#[test]
fn self_destruct_edge_destroys_and_spawns_two_explosions() {
    let cfg = Config::preset();
    let map = open_map_with_spawn(10, 10, (Vec2 { x: 160_000, y: 160_000 }, 0));
    let mut gs = GameState::new(&cfg, 11);
    let i = gs.add_player();
    gs.set_player_input(i, Input { fire: true, ..Input::neutral() });
    tick(&cfg, &map, &mut gs, 16, true);
    assert!(gs.players[i].vehicle.is_some());
    // Rising edge of self-destruct on the next tick.
    gs.set_player_input(i, Input { self_destruct: true, ..Input::neutral() });
    tick(&cfg, &map, &mut gs, 32, true);
    let v = gs.players[i].vehicle.as_ref().unwrap();
    assert_eq!(v.hp, 0);
    // The cosmetic blast plus the destruction explosion.
    assert_eq!(gs.explosions.len(), 2);
    assert_eq!(gs.explosions[0].scale, cfg.self_destruct_scale);
    assert_eq!(gs.explosions[1].scale, rec_wars::fx::FP);
}

#[test]
fn zero_dt_neutral_tick_changes_no_entity_numbers() {
    let cfg = Config::preset();
    let map = open_map_with_spawn(10, 10, (Vec2 { x: 160_000, y: 160_000 }, 0));
    let mut gs = GameState::new(&cfg, 5);
    let i = gs.add_player();
    gs.set_player_input(i, Input { fire: true, ..Input::neutral() });
    tick(&cfg, &map, &mut gs, 16, true);
    gs.set_player_input(i, Input::neutral());
    tick(&cfg, &map, &mut gs, 32, true);
    let before: Option<Vehicle> = gs.players[i].vehicle;
    let frame = gs.frame_num;
    let projs_before: Vec<_> = (0..gs.projectiles.slot_count())
        .map(|k| gs.projectiles.get_at(k))
        .collect();
    // Same time again: a tick with dt = 0 and an all-false intent.
    tick(&cfg, &map, &mut gs, 32, true);
    assert_eq!(gs.dt, 0);
    assert_eq!(gs.frame_num, frame + 1);
    assert_eq!(gs.players[i].vehicle, before);
    let projs_after: Vec<_> = (0..gs.projectiles.slot_count())
        .map(|k| gs.projectiles.get_at(k))
        .collect();
    assert_eq!(projs_after, projs_before);
}

#[test]
fn ticks_are_reproducible_from_the_seed() {
    let cfg = Config::preset();
    let map = open_map_with_spawn(12, 12, (Vec2 { x: 160_000, y: 160_000 }, 0));
    let run = || {
        let mut gs = GameState::new(&cfg, 77);
        let i = gs.add_player();
        for f in 1..=30i64 {
            let input = Input {
                fire: true,
                up: f % 3 != 0,
                right: f % 5 == 0,
                ..Input::neutral()
            };
            gs.set_player_input(i, input);
            tick(&cfg, &map, &mut gs, f * 16, false);
        }
        gs.players[i].vehicle.clone()
    };
    let a = run();
    let b = run();
    assert_eq!(a, b);
}

#[test]
fn firing_over_ticks_drains_the_magazine_and_reloads() {
    let cfg = Config::preset();
    let map = open_map_with_spawn(20, 20, (Vec2 { x: 640_000, y: 640_000 }, 0));
    let mut gs = GameState::new(&cfg, 9);
    let i = gs.add_player();
    // Spawn, then hold fire; the machine gun drains in mg.ammo_max
    // shots at one per refire delay, then reloads.
    gs.set_player_input(i, Input { fire: true, ..Input::neutral() });
    let mut t = 0i64;
    for _ in 0..120 {
        t += cfg.mg.refire_ms;
        tick(&cfg, &map, &mut gs, t, true);
    }
    let v = gs.players[i].vehicle.as_ref().unwrap();
    assert!(v.hp == cfg.max_hp(v.kind));
    // After 120 refire periods the 50-round magazine has cycled at
    // least once, so some projectiles were spawned.
    assert!(gs.projectiles.slot_count() > 0);
}

#[test]
fn explosion_collection_keeps_only_young_ones() {
    let mut explosions = vec![
        Explosion::new(Vec2 { x: 0, y: 0 }, 1_000, 100, false),
        Explosion::new(Vec2 { x: 1, y: 0 }, 1_000, 900, true),
        Explosion::new(Vec2 { x: 2, y: 0 }, 1_000, 600, false),
    ];
    collect_explosions(&mut explosions, 1_000, 500);
    assert_eq!(explosions.len(), 2);
    assert_eq!(explosions[0].pos, Vec2 { x: 1, y: 0 });
    assert_eq!(explosions[1].pos, Vec2 { x: 2, y: 0 });
}

#[test]
fn tick_advances_and_clamps_time() {
    let cfg = Config::preset();
    let map = open_map_with_spawn(10, 10, (Vec2 { x: 160_000, y: 160_000 }, 0));
    let mut gs = GameState::new(&cfg, 0);
    tick(&cfg, &map, &mut gs, 5_000, true);
    assert_eq!(gs.time, 5_000);
    assert_eq!(gs.time_prev, 0);
    // A wall-clock jump is bounded by the tick cap.
    assert_eq!(gs.dt, 1_000);
    tick(&cfg, &map, &mut gs, 5_016, true);
    assert_eq!(gs.dt, 16);
    assert_eq!(gs.time_prev, 5_000);
}
