//! Tunable parameters of the simulation.
//!
//! The surrounding program owns configuration loading; the simulation
//! only reads a [`Config`] value.  Every tunable is an integer in the
//! fixed-point scales of the crate: milli-units for lengths, milliseconds
//! for times, milliradians for angles, [`crate::fx::FP`]-scaled for
//! dimensionless fractions, and milli-hit-points for damage.
//! [`Config::valid`] bounds every field so that all tick arithmetic
//! stays inside `i64`.

use crate::fx::FP;
use crate::vec2::Vec2;
use crate::weapons::{VehicleKind, Weapon};
use vstd::prelude::*;

verus! {

/// Latest game time the simulation accepts, in ms.
pub const TIME_CAP: i64 = 4_000_000_000;

/// Longest accepted tick, in ms.
pub const DT_CAP: i64 = 1_000;

/// Bound on configured delays and durations, in ms.
pub const DURATION_CAP: i64 = 100_000_000;

/// Bound on configured speeds, in milli-units per second.
pub const SPEED_CAP: i64 = 10_000_000;

/// Bound on configured accelerations, in milli-units per second squared.
pub const ACCEL_CAP: i64 = 10_000_000;

/// Bound on world coordinates, in milli-units.
pub const POS_MAX: i64 = 1_000_000_000;

/// Bound on turn rates, in milliradians per second; one tick then turns
/// less than a full circle.
pub const TR_CAP: i64 = 6_000;

/// Bound on vehicle hit points, in milli-hit-points.
pub const HP_CAP: i64 = 1_000_000_000;

/// Damage larger than any configurable hit-point total; self-destruction
/// applies this.
pub const DMG_LETHAL: i64 = 1_000_000_000_000;

/// Bound on hitbox and hardpoint offsets, in milli-units.
pub const OFFSET_CAP: i64 = 1_000_000;

/// A weapon mount: fixed to the chassis or co-rotating with the turret.
#[derive(Clone, Copy, PartialEq, Eq, Structural, Debug)]
pub enum Hardpoint {
    Chassis,
    Turret,
}

/// The shared movement parameter set of vehicles and guided missiles.
#[derive(Clone, Copy, PartialEq, Eq, Structural, Debug)]
pub struct MovementStats {
    /// Turn-rate gain per second of held input, mrad/s^2.
    pub turn_rate_increase: i64,
    /// Constant turn-rate decay, mrad/s^2.
    pub turn_rate_friction_const: i64,
    /// Per-millisecond multiplicative turn-rate retention, FP-scaled.
    pub turn_rate_friction_linear: i64,
    /// Turn-rate clamp, mrad/s.
    pub turn_rate_max: i64,
    /// Fraction of the turn applied to the velocity direction, FP-scaled.
    pub turn_effectiveness: i64,
    /// Speed cap of the car-steering approximation, milli-units/s;
    /// zero selects in-place (tank-like) steering.
    pub steering_car: i64,
    /// Forward acceleration, milli-units/s^2.
    pub accel_forward: i64,
    /// Backward acceleration, milli-units/s^2.
    pub accel_backward: i64,
    /// Constant speed decay, milli-units/s^2.
    pub friction_const: i64,
    /// Per-millisecond multiplicative speed retention, FP-scaled.
    pub friction_linear: i64,
    /// Speed clamp, milli-units/s.
    pub speed_max: i64,
}

impl MovementStats {
    pub open spec fn valid(self) -> bool {
        &&& 0 <= self.turn_rate_increase <= 100_000
        &&& 0 <= self.turn_rate_friction_const <= 100_000
        &&& 0 <= self.turn_rate_friction_linear <= FP
        &&& 0 < self.turn_rate_max <= TR_CAP
        &&& 0 <= self.turn_effectiveness <= FP
        &&& 0 <= self.steering_car <= SPEED_CAP
        &&& 0 <= self.accel_forward <= ACCEL_CAP
        &&& 0 <= self.accel_backward <= ACCEL_CAP
        &&& 0 <= self.friction_const <= ACCEL_CAP
        &&& 0 <= self.friction_linear <= FP
        &&& 0 < self.speed_max <= SPEED_CAP
    }
}

/// Per-weapon tunables.
#[derive(Clone, Copy, PartialEq, Eq, Structural, Debug)]
pub struct WeaponStats {
    /// Damage of one hit, milli-hit-points.
    pub damage: i64,
    /// Delay between shots of one magazine, ms.
    pub refire_ms: i64,
    /// Reload duration after the magazine runs dry, ms.
    pub reload_ms: i64,
    /// Magazine size.
    pub ammo_max: u32,
    /// Muzzle speed, milli-units/s.
    pub speed: i64,
    /// Fraction of the vehicle velocity a shot inherits, FP-scaled.
    pub vel_factor: i64,
    /// Scale of the impact explosion, FP-scaled; `None` for no explosion.
    pub explosion: Option<i64>,
}

impl WeaponStats {
    pub open spec fn valid(self) -> bool {
        &&& 0 <= self.damage <= HP_CAP
        &&& 0 <= self.refire_ms <= DURATION_CAP
        &&& 0 <= self.reload_ms <= DURATION_CAP
        &&& self.ammo_max >= 1
        &&& 0 <= self.speed <= SPEED_CAP
        &&& 0 <= self.vel_factor <= FP
        &&& (self.explosion matches Some(s) ==> 0 <= s <= 10_000)
    }
}

/// Local-frame corner box of a vehicle.
#[derive(Clone, Copy, PartialEq, Eq, Structural, Debug)]
pub struct Hitbox {
    pub mins: Vec2,
    pub maxs: Vec2,
}

impl Hitbox {
    pub open spec fn valid(self) -> bool {
        &&& -OFFSET_CAP <= self.mins.x <= self.maxs.x <= OFFSET_CAP
        &&& -OFFSET_CAP <= self.mins.y <= self.maxs.y <= OFFSET_CAP
    }
}

#[derive(Clone, Copy, PartialEq, Eq, Structural, Debug)]
pub struct Config {
    pub tank_stats: MovementStats,
    pub hovercraft_stats: MovementStats,
    pub hummer_stats: MovementStats,
    /// Movement parameters of guided and homing missiles.
    pub missile_stats: MovementStats,
    pub tank_hp: i64,
    pub hovercraft_hp: i64,
    pub hummer_hp: i64,
    pub tank_hitbox: Hitbox,
    pub hovercraft_hitbox: Hitbox,
    pub hummer_hitbox: Hitbox,
    /// Turret pivot offset from the chassis center, per vehicle kind.
    pub tank_turret_offset: Vec2,
    pub hovercraft_turret_offset: Vec2,
    pub hummer_turret_offset: Vec2,
    pub mg: WeaponStats,
    pub rail: WeaponStats,
    pub cb: WeaponStats,
    pub rockets: WeaponStats,
    pub hm: WeaponStats,
    pub gm: WeaponStats,
    pub bfg: WeaponStats,
    pub mg_hardpoint: Hardpoint,
    pub rail_hardpoint: Hardpoint,
    pub cb_hardpoint: Hardpoint,
    pub rockets_hardpoint: Hardpoint,
    pub hm_hardpoint: Hardpoint,
    pub gm_hardpoint: Hardpoint,
    pub bfg_hardpoint: Hardpoint,
    pub mg_offset: Vec2,
    pub rail_offset: Vec2,
    pub cb_offset: Vec2,
    pub rockets_offset: Vec2,
    pub hm_offset: Vec2,
    pub gm_offset: Vec2,
    pub bfg_offset: Vec2,
    /// Largest machine-gun angle perturbation, mrad.
    pub mg_spread_mrad: i64,
    /// Sub-munitions per cluster-bomb shot.
    pub cb_count: u32,
    /// Largest forward speed perturbation of a sub-munition, milli-units/s.
    pub cb_spread_forward: i64,
    /// Largest sideways speed perturbation of a sub-munition, milli-units/s.
    pub cb_spread_sideways: i64,
    /// Bell-shaped rather than flat sub-munition scatter.
    pub cb_gaussian: bool,
    /// Base sub-munition flight time, ms.
    pub cb_time_ms: i64,
    /// Largest flight-time perturbation, ms.
    pub cb_time_spread_ms: i64,
    /// Reach of the sustained damage beam, milli-units.
    pub bfg_beam_range: i64,
    /// Sustained beam damage, milli-hit-points per second.
    pub bfg_beam_dps: i64,
    /// Length of the instantaneous railgun ray, milli-units.
    pub rail_range: i64,
    /// Turret rotation speed, mrad/s.
    pub turret_turn_speed: i64,
    /// Scale of the cosmetic self-destruct blast, FP-scaled.
    pub self_destruct_scale: i64,
    /// How long a spawned explosion is kept, ms.
    pub explosion_duration_ms: i64,
    /// Distance below which a projectile hits a vehicle, milli-units.
    pub hit_dist: i64,
}

impl Config {
    pub open spec fn valid(self) -> bool {
        &&& self.tank_stats.valid()
        &&& self.hovercraft_stats.valid()
        &&& self.hummer_stats.valid()
        &&& self.missile_stats.valid()
        &&& 0 < self.tank_hp <= HP_CAP
        &&& 0 < self.hovercraft_hp <= HP_CAP
        &&& 0 < self.hummer_hp <= HP_CAP
        &&& self.tank_hitbox.valid()
        &&& self.hovercraft_hitbox.valid()
        &&& self.hummer_hitbox.valid()
        &&& bounded_offset(self.tank_turret_offset)
        &&& bounded_offset(self.hovercraft_turret_offset)
        &&& bounded_offset(self.hummer_turret_offset)
        &&& self.mg.valid()
        &&& self.rail.valid()
        &&& self.cb.valid()
        &&& self.rockets.valid()
        &&& self.hm.valid()
        &&& self.gm.valid()
        &&& self.bfg.valid()
        &&& bounded_offset(self.mg_offset)
        &&& bounded_offset(self.rail_offset)
        &&& bounded_offset(self.cb_offset)
        &&& bounded_offset(self.rockets_offset)
        &&& bounded_offset(self.hm_offset)
        &&& bounded_offset(self.gm_offset)
        &&& bounded_offset(self.bfg_offset)
        &&& 0 <= self.mg_spread_mrad <= 500
        &&& 1 <= self.cb_count <= 100
        &&& 0 <= self.cb_spread_forward <= SPEED_CAP
        &&& 0 <= self.cb_spread_sideways <= SPEED_CAP
        &&& 0 <= self.cb_time_spread_ms <= self.cb_time_ms <= DURATION_CAP
        &&& 0 <= self.bfg_beam_range <= POS_MAX
        &&& 0 <= self.bfg_beam_dps <= HP_CAP
        &&& 0 <= self.rail_range <= 200_000_000
        &&& 0 <= self.turret_turn_speed <= TR_CAP
        &&& 0 <= self.self_destruct_scale <= 10_000
        &&& 0 < self.explosion_duration_ms <= DURATION_CAP
        &&& 0 <= self.hit_dist <= OFFSET_CAP
    }

    pub open spec fn spec_movement_stats(self, kind: VehicleKind) -> MovementStats {
        match kind {
            VehicleKind::Tank => self.tank_stats,
            VehicleKind::Hovercraft => self.hovercraft_stats,
            VehicleKind::Hummer => self.hummer_stats,
        }
    }

    pub open spec fn spec_max_hp(self, kind: VehicleKind) -> i64 {
        match kind {
            VehicleKind::Tank => self.tank_hp,
            VehicleKind::Hovercraft => self.hovercraft_hp,
            VehicleKind::Hummer => self.hummer_hp,
        }
    }

    pub open spec fn spec_hitbox(self, kind: VehicleKind) -> Hitbox {
        match kind {
            VehicleKind::Tank => self.tank_hitbox,
            VehicleKind::Hovercraft => self.hovercraft_hitbox,
            VehicleKind::Hummer => self.hummer_hitbox,
        }
    }

    pub open spec fn spec_turret_offset(self, kind: VehicleKind) -> Vec2 {
        match kind {
            VehicleKind::Tank => self.tank_turret_offset,
            VehicleKind::Hovercraft => self.hovercraft_turret_offset,
            VehicleKind::Hummer => self.hummer_turret_offset,
        }
    }

    pub open spec fn spec_weapon_stats(self, w: Weapon) -> WeaponStats {
        match w {
            Weapon::Mg => self.mg,
            Weapon::Rail => self.rail,
            Weapon::Cb => self.cb,
            Weapon::Rockets => self.rockets,
            Weapon::Hm => self.hm,
            Weapon::Gm => self.gm,
            Weapon::Bfg => self.bfg,
        }
    }

    pub open spec fn spec_hardpoint(self, w: Weapon) -> (Hardpoint, Vec2) {
        match w {
            Weapon::Mg => (self.mg_hardpoint, self.mg_offset),
            Weapon::Rail => (self.rail_hardpoint, self.rail_offset),
            Weapon::Cb => (self.cb_hardpoint, self.cb_offset),
            Weapon::Rockets => (self.rockets_hardpoint, self.rockets_offset),
            Weapon::Hm => (self.hm_hardpoint, self.hm_offset),
            Weapon::Gm => (self.gm_hardpoint, self.gm_offset),
            Weapon::Bfg => (self.bfg_hardpoint, self.bfg_offset),
        }
    }

    pub fn movement_stats(&self, kind: VehicleKind) -> (r: MovementStats)
        ensures
            r == self.spec_movement_stats(kind),
    {
        match kind {
            VehicleKind::Tank => self.tank_stats,
            VehicleKind::Hovercraft => self.hovercraft_stats,
            VehicleKind::Hummer => self.hummer_stats,
        }
    }

    pub fn max_hp(&self, kind: VehicleKind) -> (r: i64)
        ensures
            r == self.spec_max_hp(kind),
    {
        match kind {
            VehicleKind::Tank => self.tank_hp,
            VehicleKind::Hovercraft => self.hovercraft_hp,
            VehicleKind::Hummer => self.hummer_hp,
        }
    }

    pub fn hitbox(&self, kind: VehicleKind) -> (r: Hitbox)
        ensures
            r == self.spec_hitbox(kind),
    {
        match kind {
            VehicleKind::Tank => self.tank_hitbox,
            VehicleKind::Hovercraft => self.hovercraft_hitbox,
            VehicleKind::Hummer => self.hummer_hitbox,
        }
    }

    pub fn turret_offset(&self, kind: VehicleKind) -> (r: Vec2)
        ensures
            r == self.spec_turret_offset(kind),
    {
        match kind {
            VehicleKind::Tank => self.tank_turret_offset,
            VehicleKind::Hovercraft => self.hovercraft_turret_offset,
            VehicleKind::Hummer => self.hummer_turret_offset,
        }
    }

    pub fn weapon_stats(&self, w: Weapon) -> (r: WeaponStats)
        ensures
            r == self.spec_weapon_stats(w),
    {
        match w {
            Weapon::Mg => self.mg,
            Weapon::Rail => self.rail,
            Weapon::Cb => self.cb,
            Weapon::Rockets => self.rockets,
            Weapon::Hm => self.hm,
            Weapon::Gm => self.gm,
            Weapon::Bfg => self.bfg,
        }
    }

    pub fn hardpoint(&self, w: Weapon) -> (r: (Hardpoint, Vec2))
        ensures
            r == self.spec_hardpoint(w),
    {
        match w {
            Weapon::Mg => (self.mg_hardpoint, self.mg_offset),
            Weapon::Rail => (self.rail_hardpoint, self.rail_offset),
            Weapon::Cb => (self.cb_hardpoint, self.cb_offset),
            Weapon::Rockets => (self.rockets_hardpoint, self.rockets_offset),
            Weapon::Hm => (self.hm_hardpoint, self.hm_offset),
            Weapon::Gm => (self.gm_hardpoint, self.gm_offset),
            Weapon::Bfg => (self.bfg_hardpoint, self.bfg_offset),
        }
    }

    /// Built-in tuning; the surrounding program may construct its own
    /// `Config` instead, as long as it keeps `valid()`.
    pub fn preset() -> (r: Config)
        ensures
            r.valid(),
    {
        let tank_stats = MovementStats {
            turn_rate_increase: 10_000,
            turn_rate_friction_const: 1_500,
            turn_rate_friction_linear: 996,
            turn_rate_max: 3_000,
            turn_effectiveness: 500,
            steering_car: 0,
            accel_forward: 600_000,
            accel_backward: 480_000,
            friction_const: 50_000,
            friction_linear: 999,
            speed_max: 250_000,
        };
        let hovercraft_stats = MovementStats {
            turn_rate_increase: 8_000,
            turn_rate_friction_const: 800,
            turn_rate_friction_linear: 997,
            turn_rate_max: 2_500,
            turn_effectiveness: 300,
            steering_car: 0,
            accel_forward: 700_000,
            accel_backward: 500_000,
            friction_const: 20_000,
            friction_linear: 999,
            speed_max: 350_000,
        };
        let hummer_stats = MovementStats {
            turn_rate_increase: 12_000,
            turn_rate_friction_const: 2_000,
            turn_rate_friction_linear: 995,
            turn_rate_max: 3_500,
            turn_effectiveness: 800,
            steering_car: 100_000,
            accel_forward: 800_000,
            accel_backward: 550_000,
            friction_const: 60_000,
            friction_linear: 998,
            speed_max: 400_000,
        };
        let missile_stats = MovementStats {
            turn_rate_increase: 20_000,
            turn_rate_friction_const: 2_000,
            turn_rate_friction_linear: 993,
            turn_rate_max: 4_000,
            turn_effectiveness: 1_000,
            steering_car: 0,
            accel_forward: 500_000,
            accel_backward: 500_000,
            friction_const: 0,
            friction_linear: 1_000,
            speed_max: 500_000,
        };
        Config {
            tank_stats,
            hovercraft_stats,
            hummer_stats,
            missile_stats,
            tank_hp: 100_000,
            hovercraft_hp: 70_000,
            hummer_hp: 60_000,
            tank_hitbox: Hitbox {
                mins: Vec2 { x: -24_000, y: -18_000 },
                maxs: Vec2 { x: 24_000, y: 18_000 },
            },
            hovercraft_hitbox: Hitbox {
                mins: Vec2 { x: -22_000, y: -16_000 },
                maxs: Vec2 { x: 22_000, y: 16_000 },
            },
            hummer_hitbox: Hitbox {
                mins: Vec2 { x: -20_000, y: -14_000 },
                maxs: Vec2 { x: 20_000, y: 14_000 },
            },
            tank_turret_offset: Vec2 { x: 0, y: 0 },
            hovercraft_turret_offset: Vec2 { x: 0, y: 0 },
            hummer_turret_offset: Vec2 { x: 0, y: 0 },
            mg: WeaponStats {
                damage: 2_500,
                refire_ms: 50,
                reload_ms: 3_000,
                ammo_max: 50,
                speed: 1_000_000,
                vel_factor: 1_000,
                explosion: None,
            },
            rail: WeaponStats {
                damage: 41_000,
                refire_ms: 900,
                reload_ms: 2_350,
                ammo_max: 1,
                speed: 0,
                vel_factor: 0,
                explosion: None,
            },
            cb: WeaponStats {
                damage: 0,
                refire_ms: 900,
                reload_ms: 3_000,
                ammo_max: 1,
                speed: 400_000,
                vel_factor: 500,
                explosion: Some(500),
            },
            rockets: WeaponStats {
                damage: 17_000,
                refire_ms: 900,
                reload_ms: 2_000,
                ammo_max: 6,
                speed: 600_000,
                vel_factor: 1_000,
                explosion: Some(1_000),
            },
            hm: WeaponStats {
                damage: 30_000,
                refire_ms: 1_300,
                reload_ms: 2_600,
                ammo_max: 2,
                speed: 300_000,
                vel_factor: 500,
                explosion: Some(1_000),
            },
            gm: WeaponStats {
                damage: 35_000,
                refire_ms: 1_300,
                reload_ms: 2_600,
                ammo_max: 2,
                speed: 250_000,
                vel_factor: 500,
                explosion: Some(1_000),
            },
            bfg: WeaponStats {
                damage: 60_000,
                refire_ms: 1_200,
                reload_ms: 4_000,
                ammo_max: 1,
                speed: 150_000,
                vel_factor: 500,
                explosion: Some(1_500),
            },
            mg_hardpoint: Hardpoint::Turret,
            rail_hardpoint: Hardpoint::Turret,
            cb_hardpoint: Hardpoint::Chassis,
            rockets_hardpoint: Hardpoint::Turret,
            hm_hardpoint: Hardpoint::Chassis,
            gm_hardpoint: Hardpoint::Chassis,
            bfg_hardpoint: Hardpoint::Turret,
            mg_offset: Vec2 { x: 20_000, y: 0 },
            rail_offset: Vec2 { x: 20_000, y: 0 },
            cb_offset: Vec2 { x: 0, y: 0 },
            rockets_offset: Vec2 { x: 20_000, y: 0 },
            hm_offset: Vec2 { x: 10_000, y: 0 },
            gm_offset: Vec2 { x: 10_000, y: 0 },
            bfg_offset: Vec2 { x: 20_000, y: 0 },
            mg_spread_mrad: 50,
            cb_count: 40,
            cb_spread_forward: 150_000,
            cb_spread_sideways: 50_000,
            cb_gaussian: true,
            cb_time_ms: 800,
            cb_time_spread_ms: 200,
            bfg_beam_range: 125_000,
            bfg_beam_dps: 50_000,
            rail_range: 100_000_000,
            turret_turn_speed: 1_500,
            self_destruct_scale: 2_000,
            explosion_duration_ms: 500,
            hit_dist: 24_000,
        }
    }
}

pub open spec fn bounded_offset(v: Vec2) -> bool {
    -OFFSET_CAP <= v.x <= OFFSET_CAP && -OFFSET_CAP <= v.y <= OFFSET_CAP
}

} // verus!
