//! The ammunition state machine and weapon cycling.

use rec_wars::ammo::Ammo;
use rec_wars::config::Config;
use rec_wars::entities::Vehicle;
use rec_wars::input::Input;
use rec_wars::systems::{cycle_weapon, vehicle_logic};
use rec_wars::vec2::Vec2;
use rec_wars::weapons::{VehicleKind, Weapon};

#[test]
fn firing_consumes_one_round() {
    let a = Ammo::Loaded { ready_at: 0, remaining: 2 };
    let (a2, fired) = a.try_fire(100, 50, 3_000);
    assert!(fired);
    assert_eq!(a2, Ammo::Loaded { ready_at: 150, remaining: 1 });
}

#[test]
fn last_round_starts_reload() {
    let a = Ammo::Loaded { ready_at: 0, remaining: 1 };
    let (a2, fired) = a.try_fire(100, 50, 3_000);
    assert!(fired);
    assert_eq!(a2, Ammo::Reloading { started_at: 100, ends_at: 3_100 });
}

#[test]
fn firing_before_ready_is_a_noop() {
    let a = Ammo::Loaded { ready_at: 200, remaining: 5 };
    let (a2, fired) = a.try_fire(100, 50, 3_000);
    assert!(!fired);
    assert_eq!(a2, a);
}

#[test]
fn firing_while_reloading_is_a_noop() {
    let a = Ammo::Reloading { started_at: 0, ends_at: 3_000 };
    let (a2, fired) = a.try_fire(100, 50, 3_000);
    assert!(!fired);
    assert_eq!(a2, a);
}

#[test]
fn reload_finishes_exactly_at_its_end_time() {
    let a = Ammo::Reloading { started_at: 0, ends_at: 3_000 };
    assert_eq!(a.reload_step(2_999, 50), a);
    assert_eq!(a.reload_step(3_000, 50), Ammo::Loaded { ready_at: 3_000, remaining: 50 });
}

#[test]
fn weapon_cycling_wraps_and_is_edge_triggered() {
    let pressed = Input { next_weapon: true, ..Input::neutral() };
    let held = pressed;
    assert_eq!(cycle_weapon(Weapon::Bfg, pressed, Input::neutral()), Weapon::Mg);
    // Holding the key across ticks cycles only once.
    assert_eq!(cycle_weapon(Weapon::Mg, held, held), Weapon::Mg);
    let prev = Input { prev_weapon: true, ..Input::neutral() };
    assert_eq!(cycle_weapon(Weapon::Mg, prev, Input::neutral()), Weapon::Bfg);
}

#[test]
fn weapon_index_round_trip() {
    for i in 0..7usize {
        let w = Weapon::from_index(i);
        assert_eq!(w.index(), i);
    }
    assert_eq!(Weapon::Gm.next(), Weapon::Bfg);
    assert_eq!(Weapon::Rail.prev(), Weapon::Mg);
}

#[test]
fn input_demux_slices() {
    let full = Input {
        up: true,
        left: true,
        turret_right: true,
        fire: true,
        ..Input::neutral()
    };
    let veh = full.vehicle_while_guiding();
    assert!(!veh.up && !veh.left);
    assert!(veh.turret_right && veh.fire);
    let mis = full.missile_while_guiding();
    assert!(mis.up && mis.left);
    assert!(!mis.turret_right && !mis.fire);
}

#[test]
fn turret_and_reload_bookkeeping() {
    let cfg = Config::preset();
    let mut v = Vehicle::spawn(&cfg, VehicleKind::Tank, Vec2 { x: 160_000, y: 160_000 }, 0);
    v.ammo[0] = Ammo::Reloading { started_at: 0, ends_at: 2_000 };
    let turret = Input { turret_right: true, ..Input::neutral() };
    // Half a second of turret turning, with the reload still pending.
    let v1 = vehicle_logic(&cfg, v, turret, Input::neutral(), 1_000, 500);
    assert_eq!(v1.turret_angle, cfg.turret_turn_speed * 500 / 1_000);
    assert_eq!(v1.ammo[0], Ammo::Reloading { started_at: 0, ends_at: 2_000 });
    // Once the reload has run out the slot refills.
    let v2 = vehicle_logic(&cfg, v1, Input::neutral(), Input::neutral(), 2_000, 500);
    assert_eq!(v2.ammo[0], Ammo::Loaded { ready_at: 2_000, remaining: cfg.mg.ammo_max });
}
