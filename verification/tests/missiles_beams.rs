//! Guided-missile steering and the BFG's sustained beam.

use rec_wars::arena::ProjArena;
use rec_wars::config::Config;
use rec_wars::entities::{Explosion, Player, Projectile, Vehicle};
use rec_wars::input::Input;
use rec_wars::movement::missile_steer;
use rec_wars::projectiles::{missiles_steer_pass, projectile_pass};
use rec_wars::tilemap::TileMap;
use rec_wars::vec2::Vec2;
use rec_wars::weapons::{VehicleKind, Weapon};

fn open_map(w: usize, h: usize) -> TileMap {
    TileMap::make(w, h, vec![false; w * h], Vec::new()).unwrap()
}

fn player_at(cfg: &Config, pos: Vec2) -> Player {
    Player {
        vehicle: Some(Vehicle::spawn(cfg, VehicleKind::Tank, pos, 0)),
        guided_missile: None,
        input: Input::neutral(),
        input_prev: Input::neutral(),
    }
}

#[test]
fn held_turn_input_turns_the_missile() {
    let cfg = Config::preset();
    let vel = Vec2 { x: 250_000, y: 0 };
    let right = Input { right: true, ..Input::neutral() };
    let (_, angle, turn_rate) = missile_steer(&cfg.missile_stats, vel, 0, 0, right, 16);
    // One second of held right turn raises the turn rate (clamped) and
    // advances the facing clockwise.
    assert!(turn_rate > 0);
    assert!(angle > 0);
    // Turning left instead mirrors the sign.
    let left = Input { left: true, ..Input::neutral() };
    let (_, _, tr_left) = missile_steer(&cfg.missile_stats, vel, 0, 0, left, 16);
    assert_eq!(tr_left, -turn_rate);
}

#[test]
fn guided_missile_obeys_its_linked_owner() {
    let cfg = Config::preset();
    let mut players = vec![player_at(&cfg, Vec2 { x: 200_000, y: 200_000 })];
    let mut projectiles = ProjArena::new();
    let h = projectiles.insert(Projectile {
        weapon: Weapon::Gm,
        pos: Vec2 { x: 400_000, y: 400_000 },
        vel: Vec2 { x: 250_000, y: 0 },
        owner: 0,
        angle: 0,
        turn_rate: 0,
        deadline: None,
    });
    players[0].guided_missile = Some(h);
    players[0].input = Input { right: true, ..Input::neutral() };
    missiles_steer_pass(&cfg, &players, &mut projectiles, 100);
    let steered = projectiles.get(h).unwrap();
    assert!(steered.turn_rate > 0, "the owner's turn input reached the missile");
    // An unlinked missile with the same state flies straight.
    players[0].guided_missile = None;
    let mut projectiles2 = ProjArena::new();
    let h2 = projectiles2.insert(Projectile {
        weapon: Weapon::Gm,
        pos: Vec2 { x: 400_000, y: 400_000 },
        vel: Vec2 { x: 250_000, y: 0 },
        owner: 0,
        angle: 0,
        turn_rate: 0,
        deadline: None,
    });
    missiles_steer_pass(&cfg, &players, &mut projectiles2, 100);
    let autonomous = projectiles2.get(h2).unwrap();
    assert_eq!(autonomous.turn_rate, 0);
    assert_eq!(autonomous.angle, 0);
}

#[test]
fn bfg_beam_burns_unobstructed_vehicles_in_range() {
    let cfg = Config::preset();
    let map = open_map(30, 30);
    // Owner far away; an enemy 100 units from the projectile, inside
    // the 125-unit beam range but outside the direct hit distance.
    let mut players = vec![
        player_at(&cfg, Vec2 { x: 1_000_000, y: 1_000_000 }),
        player_at(&cfg, Vec2 { x: 600_000, y: 500_000 }),
    ];
    let mut projectiles = ProjArena::new();
    let mut explosions: Vec<Explosion> = Vec::new();
    let mut beams: Vec<(Vec2, Vec2)> = Vec::new();
    projectiles.insert(Projectile {
        weapon: Weapon::Bfg,
        pos: Vec2 { x: 500_000, y: 500_000 },
        vel: Vec2 { x: 0, y: 0 },
        owner: 0,
        angle: 0,
        turn_rate: 0,
        deadline: None,
    });
    projectile_pass(
        &cfg, &map, &mut players, &mut projectiles, &mut explosions, &mut beams, 1_000, 100,
    );
    let hp = players[1].vehicle.as_ref().unwrap().hp;
    // Time-proportional burn: dps * dt / 1000.
    assert_eq!(hp, cfg.tank_hp - cfg.bfg_beam_dps * 100 / 1_000);
    assert_eq!(beams.len(), 1);
    // The owner is never burnt by their own beam.
    assert_eq!(players[0].vehicle.as_ref().unwrap().hp, cfg.tank_hp);
}

#[test]
fn bfg_beam_is_blocked_by_walls() {
    let cfg = Config::preset();
    // A wall tile between the projectile and the enemy.
    let w = 30usize;
    let mut walls = vec![false; w * w];
    walls[7 * w + 8] = true;  // tile (8, 7) covers x 512k..576k, y 448k..512k
    let map = TileMap::make(w, w, walls, Vec::new()).unwrap();
    let mut players = vec![
        player_at(&cfg, Vec2 { x: 1_000_000, y: 1_000_000 }),
        player_at(&cfg, Vec2 { x: 600_000, y: 500_000 }),
    ];
    let mut projectiles = ProjArena::new();
    let mut explosions: Vec<Explosion> = Vec::new();
    let mut beams: Vec<(Vec2, Vec2)> = Vec::new();
    projectiles.insert(Projectile {
        weapon: Weapon::Bfg,
        pos: Vec2 { x: 500_000, y: 500_000 },
        vel: Vec2 { x: 0, y: 0 },
        owner: 0,
        angle: 0,
        turn_rate: 0,
        deadline: None,
    });
    projectile_pass(
        &cfg, &map, &mut players, &mut projectiles, &mut explosions, &mut beams, 1_000, 100,
    );
    assert_eq!(players[1].vehicle.as_ref().unwrap().hp, cfg.tank_hp);
    assert!(beams.is_empty());
}
