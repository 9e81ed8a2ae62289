//! Damage, destruction, shooting and projectile behavior.

use rec_wars::arena::ProjArena;
use rec_wars::config::Config;
use rec_wars::entities::{Explosion, Player, ProjHandle, Projectile, RailBeam, Vehicle};
use rec_wars::fx::FP;
use rec_wars::input::Input;
use rec_wars::projectiles::{projectile_pass, projectiles_timeout_pass};
use rec_wars::rng::rng_from_seed;
use rec_wars::shooting::{fire_weapon, shot_vel};
use rec_wars::systems::damage_vehicle;
use rec_wars::tilemap::{TileMap, TILE};
use rec_wars::vec2::Vec2;
use rec_wars::weapons::Weapon;

fn open_map(w: usize, h: usize) -> TileMap {
    TileMap::make(w, h, vec![false; w * h], Vec::new()).unwrap()
}

fn player_with_vehicle(cfg: &Config, pos: Vec2) -> Player {
    let v = Vehicle::spawn(cfg, rec_wars::weapons::VehicleKind::Tank, pos, 0);
    Player {
        vehicle: Some(v),
        guided_missile: None,
        input: Input::neutral(),
        input_prev: Input::neutral(),
    }
}

#[test]
fn lethal_hit_destroys_clamps_and_spawns_one_explosion() {
    let cfg = Config::preset();
    let mut p = player_with_vehicle(&cfg, Vec2 { x: 96_000, y: 96_000 });
    // Health fraction 0.1, hit for a damage fraction of 0.15.
    let max = cfg.tank_hp;
    if let Some(v) = &mut p.vehicle {
        v.hp = max / 10;
    }
    p.guided_missile = Some(ProjHandle { idx: 7, gen: 3 });
    let mut explosions: Vec<Explosion> = Vec::new();
    let dmg = max * 15 / 100;
    damage_vehicle(&cfg, &mut p, 5_000, dmg, &mut explosions);
    let v = p.vehicle.as_ref().unwrap();
    assert_eq!(v.hp, 0);
    assert!(v.destroyed());
    // Exactly one full-scale explosion at the vehicle position, and the
    // owner's guided-missile link is gone.
    assert_eq!(explosions.len(), 1);
    assert_eq!(explosions[0].pos, Vec2 { x: 96_000, y: 96_000 });
    assert_eq!(explosions[0].scale, FP);
    assert!(!explosions[0].bfg);
    assert!(p.guided_missile.is_none());
}

#[test]
fn nonlethal_hit_only_lowers_hit_points() {
    let cfg = Config::preset();
    let mut p = player_with_vehicle(&cfg, Vec2 { x: 96_000, y: 96_000 });
    p.guided_missile = Some(ProjHandle { idx: 1, gen: 0 });
    let mut explosions: Vec<Explosion> = Vec::new();
    damage_vehicle(&cfg, &mut p, 5_000, 10_000, &mut explosions);
    let v = p.vehicle.as_ref().unwrap();
    assert_eq!(v.hp, cfg.tank_hp - 10_000);
    assert!(!v.destroyed());
    assert!(explosions.is_empty());
    assert_eq!(p.guided_missile, Some(ProjHandle { idx: 1, gen: 0 }));
}

#[test]
fn machine_gun_spends_last_round_and_spawns_one_shot() {
    let mut cfg = Config::preset();
    cfg.mg_spread_mrad = 0;  // deterministic shot for an exact check
    let map = open_map(8, 8);
    let mut rng = rng_from_seed(1);
    let mut players = vec![player_with_vehicle(&cfg, Vec2 { x: 96_000, y: 96_000 })];
    if let Some(v) = &mut players[0].vehicle {
        v.ammo[0] = rec_wars::ammo::Ammo::Loaded { ready_at: 0, remaining: 1 };
        v.body.vel = Vec2 { x: 50_000, y: 0 };
    }
    players[0].input = Input { fire: true, ..Input::neutral() };
    let mut projectiles = ProjArena::new();
    let mut beams: Vec<RailBeam> = Vec::new();
    fire_weapon(&cfg, &map, &mut rng, &mut players, 0, &mut projectiles, &mut beams, 1_000);
    // Ammunition: the last round forces the reload transition.
    let v = players[0].vehicle.as_ref().unwrap();
    assert_eq!(
        v.ammo[0],
        rec_wars::ammo::Ammo::Reloading { started_at: 1_000, ends_at: 1_000 + cfg.mg.reload_ms },
    );
    // Exactly one projectile, with the muzzle velocity plus the full
    // inherited vehicle velocity (facing right, no spread).
    assert_eq!(projectiles.live_count(), 1);
    let p = projectiles.get_at(0).unwrap();
    assert_eq!(p.weapon, Weapon::Mg);
    assert_eq!(p.owner, 0);
    // Turret hardpoint offset 20 units to the right of the center.
    assert_eq!(p.pos, Vec2 { x: 116_000, y: 96_000 });
    assert_eq!(p.vel, Vec2 { x: cfg.mg.speed + 50_000, y: 0 });
    assert!(beams.is_empty());
}

#[test]
fn shot_velocity_formula() {
    // Facing right with no spread: base speed plus the inherited
    // fraction of the vehicle velocity.
    let v = shot_vel(1_000_000, 0, 0, 0, Vec2 { x: 100_000, y: 40_000 }, 500);
    assert_eq!(v, Vec2 { x: 1_050_000, y: 20_000 });
}

#[test]
fn railgun_records_one_beam_to_the_wall_and_no_projectile() {
    let cfg = Config::preset();
    // A corridor: row 1 open except a wall at column 9, about 460
    // units in front of the muzzle.
    let w = 12usize;
    let h = 3usize;
    let mut walls = vec![false; w * h];
    for r in 0..h {
        walls[r * w + 9] = true;
    }
    let map = TileMap::make(w, h, walls, Vec::new()).unwrap();
    let mut rng = rng_from_seed(2);
    let mut players = vec![player_with_vehicle(&cfg, Vec2 { x: 96_000, y: 96_000 })];
    if let Some(v) = &mut players[0].vehicle {
        v.cur_weapon = Weapon::Rail;
    }
    players[0].input = Input { fire: true, ..Input::neutral() };
    let mut projectiles = ProjArena::new();
    let mut beams: Vec<RailBeam> = Vec::new();
    fire_weapon(&cfg, &map, &mut rng, &mut players, 0, &mut projectiles, &mut beams, 1_000);
    // No projectile entity; one beam from the muzzle to the first
    // sampled point inside the wall column.
    assert_eq!(projectiles.live_count(), 0);
    assert_eq!(beams.len(), 1);
    let origin = Vec2 { x: 116_000, y: 96_000 };
    assert_eq!(beams[0].begin, origin);
    let n = cfg.rail_range / rec_wars::tilemap::SEG_STEP + 1;
    let k = (1..=n)
        .find(|&k| origin.x + (cfg.rail_range * k) / n >= 9 * TILE)
        .unwrap();
    assert_eq!(beams[0].end, Vec2 { x: origin.x + (cfg.rail_range * k) / n, y: 96_000 });
    assert_eq!(beams[0].start_time, 1_000);
    // The round was spent even though nothing was damaged.
    let v = players[0].vehicle.as_ref().unwrap();
    assert!(matches!(v.ammo[1], rec_wars::ammo::Ammo::Reloading { .. }));
}

#[test]
fn new_guided_missile_replaces_the_link_and_old_one_keeps_flying() {
    let cfg = Config::preset();
    let map = open_map(30, 30);
    let mut rng = rng_from_seed(3);
    let mut players = vec![player_with_vehicle(&cfg, Vec2 { x: 500_000, y: 500_000 })];
    if let Some(v) = &mut players[0].vehicle {
        v.cur_weapon = Weapon::Gm;
    }
    players[0].input = Input { fire: true, ..Input::neutral() };
    let mut projectiles = ProjArena::new();
    let mut beams: Vec<RailBeam> = Vec::new();
    fire_weapon(&cfg, &map, &mut rng, &mut players, 0, &mut projectiles, &mut beams, 1_000);
    let h1 = players[0].guided_missile.expect("first missile linked");
    let first = projectiles.get(h1).unwrap();
    assert_eq!(first.weapon, Weapon::Gm);
    // Fire again after the refire delay: the link moves to the new
    // missile, the old one is still alive in the arena.
    fire_weapon(
        &cfg,
        &map,
        &mut rng,
        &mut players,
        0,
        &mut projectiles,
        &mut beams,
        1_000 + cfg.gm.refire_ms,
    );
    let h2 = players[0].guided_missile.expect("second missile linked");
    assert_ne!(h1, h2);
    assert_eq!(projectiles.get(h1), Some(first));
    assert_eq!(projectiles.get(h2).unwrap().weapon, Weapon::Gm);
    assert_eq!(projectiles.live_count(), 2);
}

#[test]
fn cluster_bomb_moves_by_its_velocity_and_detonates_on_time() {
    let cfg = Config::preset();
    let map = open_map(30, 30);
    let mut players = vec![player_with_vehicle(&cfg, Vec2 { x: 500_000, y: 500_000 })];
    let mut projectiles = ProjArena::new();
    let mut explosions: Vec<Explosion> = Vec::new();
    let mut bfg_beams: Vec<(Vec2, Vec2)> = Vec::new();
    // A sub-munition made at t = 10.0 s that detonates at t = 12.0 s.
    let h = projectiles.insert(Projectile {
        weapon: Weapon::Cb,
        pos: Vec2 { x: 500_000, y: 500_000 },
        vel: Vec2 { x: 64_000, y: 10_000 },
        owner: 0,
        angle: 0,
        turn_rate: 0,
        deadline: Some(12_000),
    });
    // At t = 11.9 s it still exists, and every pass moved it by exactly
    // velocity times delta.
    projectile_pass(
        &cfg, &map, &mut players, &mut projectiles, &mut explosions, &mut bfg_beams, 11_800, 100,
    );
    projectile_pass(
        &cfg, &map, &mut players, &mut projectiles, &mut explosions, &mut bfg_beams, 11_900, 100,
    );
    projectiles_timeout_pass(&cfg, &mut players, &mut projectiles, &mut explosions, 11_900);
    let p = projectiles.get(h).expect("still flying at 11.9");
    assert_eq!(p.pos, Vec2 { x: 500_000 + 2 * 6_400, y: 500_000 + 2 * 1_000 });
    assert!(explosions.is_empty());
    // At t = 12.1 s it has detonated: removed, exactly one explosion.
    projectile_pass(
        &cfg, &map, &mut players, &mut projectiles, &mut explosions, &mut bfg_beams, 12_100, 200,
    );
    projectiles_timeout_pass(&cfg, &mut players, &mut projectiles, &mut explosions, 12_100);
    assert!(projectiles.get(h).is_none());
    assert_eq!(projectiles.live_count(), 0);
    assert_eq!(explosions.len(), 1);
    assert_eq!(explosions[0].scale, 500);
}

#[test]
fn projectile_hits_at_most_one_vehicle() {
    let cfg = Config::preset();
    let map = open_map(30, 30);
    // Two enemy vehicles close together in the shot path; the rocket
    // hits one and is gone.
    let mut players = vec![
        player_with_vehicle(&cfg, Vec2 { x: 200_000, y: 200_000 }),
        player_with_vehicle(&cfg, Vec2 { x: 520_000, y: 500_000 }),
        player_with_vehicle(&cfg, Vec2 { x: 530_000, y: 500_000 }),
    ];
    let mut projectiles = ProjArena::new();
    let mut explosions: Vec<Explosion> = Vec::new();
    let mut bfg_beams: Vec<(Vec2, Vec2)> = Vec::new();
    let h = projectiles.insert(Projectile {
        weapon: Weapon::Rockets,
        pos: Vec2 { x: 500_000, y: 500_000 },
        vel: Vec2 { x: 100_000, y: 0 },
        owner: 0,
        angle: 0,
        turn_rate: 0,
        deadline: None,
    });
    projectile_pass(
        &cfg, &map, &mut players, &mut projectiles, &mut explosions, &mut bfg_beams, 1_000, 200,
    );
    assert!(projectiles.get(h).is_none());
    let hp1 = players[1].vehicle.as_ref().unwrap().hp;
    let hp2 = players[2].vehicle.as_ref().unwrap().hp;
    let full = cfg.tank_hp;
    // Exactly one of the two vehicles took rocket damage.
    assert_eq!(
        (hp1, hp2),
        (full - cfg.rockets.damage, full),
        "the first vehicle in scan order takes the hit",
    );
    // Impact explosion for the rocket.
    assert_eq!(explosions.len(), 1);
    assert_eq!(explosions[0].scale, 1_000);
}

#[test]
fn cluster_bomb_shot_scatters_a_full_volley_with_bounded_timers() {
    let cfg = Config::preset();
    let map = open_map(30, 30);
    let mut rng = rng_from_seed(6);
    let mut players = vec![player_with_vehicle(&cfg, Vec2 { x: 500_000, y: 500_000 })];
    if let Some(v) = &mut players[0].vehicle {
        v.cur_weapon = Weapon::Cb;
    }
    players[0].input = Input { fire: true, ..Input::neutral() };
    let mut projectiles = ProjArena::new();
    let mut beams: Vec<RailBeam> = Vec::new();
    let now = 10_000i64;
    fire_weapon(&cfg, &map, &mut rng, &mut players, 0, &mut projectiles, &mut beams, now);
    assert_eq!(projectiles.live_count(), cfg.cb_count as usize);
    for k in 0..projectiles.slot_count() {
        let p = projectiles.get_at(k).unwrap();
        assert_eq!(p.weapon, Weapon::Cb);
        assert_eq!(p.owner, 0);
        // Chassis hardpoint with zero offset: straight from the center.
        assert_eq!(p.pos, Vec2 { x: 500_000, y: 500_000 });
        // Scatter stays within the configured bounds.
        let d = p.deadline.expect("every sub-munition carries a timer");
        assert!(d >= now + cfg.cb_time_ms - cfg.cb_time_spread_ms);
        assert!(d <= now + cfg.cb_time_ms + cfg.cb_time_spread_ms);
        assert!(p.vel.x >= cfg.cb.speed / 2 - cfg.cb_spread_forward * 2);
        assert!(p.vel.x <= cfg.cb.speed + cfg.cb_spread_forward * 2);
    }
}
