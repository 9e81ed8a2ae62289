//! Map collision queries and vehicle movement with wall rollback.

use rec_wars::config::{Config, MovementStats};
use rec_wars::input::Input;
use rec_wars::movement::{vehicle_movement, BodyState};
use rec_wars::tilemap::{TileMap, SEG_STEP, TILE};
use rec_wars::vec2::Vec2;

/// A `w` by `h` map whose walls are exactly the listed tiles.
fn grid(w: usize, h: usize, wall_tiles: &[(usize, usize)]) -> TileMap {
    let mut walls = vec![false; w * h];
    for &(c, r) in wall_tiles {
        walls[r * w + c] = true;
    }
    TileMap::make(w, h, walls, Vec::new()).unwrap()
}

/// Frictionless tank-like movement parameters, for exact expectations.
fn coasting_stats() -> MovementStats {
    MovementStats {
        turn_rate_increase: 10_000,
        turn_rate_friction_const: 0,
        turn_rate_friction_linear: 1_000,
        turn_rate_max: 3_000,
        turn_effectiveness: 500,
        steering_car: 0,
        accel_forward: 600_000,
        accel_backward: 480_000,
        friction_const: 0,
        friction_linear: 1_000,
        speed_max: 250_000,
    }
}

#[test]
fn make_rejects_bad_shapes() {
    assert!(TileMap::make(0, 3, vec![], Vec::new()).is_none());
    assert!(TileMap::make(2, 2, vec![false; 3], Vec::new()).is_none());
    // A spawn standing inside a wall is refused.
    let spawn_in_wall = vec![(Vec2 { x: 32_000, y: 32_000 }, 0i64)];
    assert!(TileMap::make(1, 1, vec![true], spawn_in_wall).is_none());
}

#[test]
fn point_collision_and_bounds() {
    let m = grid(3, 3, &[(1, 1)]);
    // Tile centers.
    assert!(!m.collision(Vec2 { x: 32_000, y: 32_000 }));
    assert!(m.collision(Vec2 { x: 96_000, y: 96_000 }));
    // Outside the grid counts as wall.
    assert!(m.collision(Vec2 { x: -1, y: 0 }));
    assert!(m.collision(Vec2 { x: 3 * TILE, y: 0 }));
}

#[test]
fn segment_first_hit_is_the_first_sample_in_the_wall() {
    let m = grid(8, 1, &[(4, 0)]);
    let a = Vec2 { x: 32_000, y: 32_000 };
    let b = Vec2 { x: 32_000 + 4 * TILE, y: 32_000 };
    // Axis distance 256_000; one sample per SEG_STEP gives n = 17.
    let n = (4 * TILE) / SEG_STEP + 1;
    assert_eq!(n, 17);
    let hit = m.collision_between(a, b).expect("wall in the way");
    // The first sample at or beyond x = 256_000 (tile 4) is the first
    // k with 32_000 + 256_000 * k / 17 >= 256_000, i.e. k = 15.
    let k = (1..=n)
        .find(|&k| 32_000 + (4 * TILE * k) / n >= 4 * TILE)
        .unwrap();
    assert_eq!(k, 15);
    assert_eq!(hit, Vec2 { x: 32_000 + (4 * TILE * k) / n, y: 32_000 });
}

#[test]
fn segment_with_no_wall_reports_none() {
    let m = grid(8, 1, &[]);
    let a = Vec2 { x: 32_000, y: 32_000 };
    let b = Vec2 { x: 480_000, y: 32_000 };
    assert!(m.collision_between(a, b).is_none());
}

#[test]
fn blocked_move_keeps_position_and_bounces_velocity() {
    // Columns 0..3 open, column 4 a wall, one open row bordered by
    // nothing else.
    let m = grid(6, 3, &[(4, 0), (4, 1), (4, 2)]);
    let cfg = Config::preset();
    let stats = coasting_stats();
    let body = BodyState {
        pos: Vec2 { x: 96_000, y: 96_000 },
        vel: Vec2 { x: 200_000, y: 0 },
        angle: 0,
        turn_rate: 0,
    };
    let after = vehicle_movement(&m, &stats, cfg.tank_hitbox, body, Input::neutral(), 1_000);
    // The candidate position 200 units to the right pushes the front
    // corners into the wall column: the move is rejected and the
    // velocity is inverted and halved.
    assert_eq!(after.pos, body.pos);
    assert_eq!(after.vel, Vec2 { x: -100_000, y: 0 });
    assert_eq!(after.angle, 0);
}

#[test]
fn open_move_commits_exactly() {
    let m = grid(6, 3, &[]);
    let cfg = Config::preset();
    let stats = coasting_stats();
    let body = BodyState {
        pos: Vec2 { x: 96_000, y: 96_000 },
        vel: Vec2 { x: 40_000, y: 0 },
        angle: 0,
        turn_rate: 0,
    };
    let after = vehicle_movement(&m, &stats, cfg.tank_hitbox, body, Input::neutral(), 1_000);
    // Frictionless coasting: exactly velocity times one second.
    assert_eq!(after.pos, Vec2 { x: 136_000, y: 96_000 });
    assert_eq!(after.vel, body.vel);
}

#[test]
fn zero_dt_movement_is_identity() {
    let m = grid(6, 3, &[]);
    let cfg = Config::preset();
    let body = BodyState {
        pos: Vec2 { x: 96_000, y: 96_000 },
        vel: Vec2 { x: 120_000, y: -30_000 },
        angle: 1_234,
        turn_rate: 500,
    };
    let held = Input { up: true, right: true, fire: false, ..Input::neutral() };
    let after = vehicle_movement(&m, &cfg.tank_stats, cfg.tank_hitbox, body, held, 0);
    assert_eq!(after, body);
}
