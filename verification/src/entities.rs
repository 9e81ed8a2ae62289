//! The entities of the simulation: vehicles, projectiles, explosions,
//! rail beams and players.

use crate::ammo::Ammo;
use crate::angle::ANG_TAU;
use crate::config::{Config, DURATION_CAP, TIME_CAP, TR_CAP};
use crate::input::Input;
use crate::movement::BodyState;
use crate::vec2::{bounded, Vec2};
use crate::weapons::{Weapon, WEAPON_COUNT};
use vstd::prelude::*;

verus! {

/// Projectile positions may run past the map (cluster bombs ignore
/// walls) but stay within this bound; movement saturates there.
pub const PROJ_POS_BOUND: i64 = 1_900_000_000;

/// Bound on projectile velocities: muzzle speed plus inherited vehicle
/// velocity, with slack.
pub const PROJ_VEL_BOUND: i64 = 100_000_000;

#[derive(Clone, Copy, PartialEq, Eq, Debug)]
pub struct Vehicle {
    pub kind: crate::weapons::VehicleKind,
    pub body: BodyState,
    /// Turret angle relative to the chassis, mrad in `[0, ANG_TAU)`.
    pub turret_angle: i64,
    /// Milli-hit-points left; zero exactly when destroyed.
    pub hp: i64,
    pub cur_weapon: Weapon,
    /// One ammunition slot per weapon, indexed by `weapon_index`.
    pub ammo: [Ammo; 7],
}

impl Vehicle {
    pub open spec fn wf(self, cfg: Config) -> bool {
        &&& self.body.wf(cfg.spec_movement_stats(self.kind))
        &&& 0 <= self.turret_angle < ANG_TAU
        &&& 0 <= self.hp <= cfg.spec_max_hp(self.kind)
        &&& forall|i: int| 0 <= i < WEAPON_COUNT ==> (#[trigger] self.ammo[i]).wf()
    }

    pub open spec fn spec_destroyed(self) -> bool {
        self.hp == 0
    }

    pub fn destroyed(&self) -> (r: bool)
        ensures
            r == self.spec_destroyed(),
    {
        self.hp == 0
    }

    /// A fresh vehicle: full health, neutral kinematics, every slot
    /// loaded with a full magazine ready at once.
    pub fn spawn(cfg: &Config, kind: crate::weapons::VehicleKind, pos: Vec2, angle: i64) -> (r:
        Vehicle)
        requires
            cfg.valid(),
            bounded(pos, crate::movement::POS_BOUND as int),
            0 <= angle < ANG_TAU,
        ensures
            r.wf(*cfg),
            r.kind == kind,
            r.body == (BodyState { pos, vel: Vec2 { x: 0, y: 0 }, angle, turn_rate: 0 }),
            r.turret_angle == 0,
            r.hp == cfg.spec_max_hp(kind),
            r.cur_weapon == Weapon::Mg,
            forall|i: int| 0 <= i < WEAPON_COUNT ==> #[trigger] r.ammo[i] == (Ammo::Loaded {
                ready_at: 0,
                remaining: cfg.spec_weapon_stats(crate::weapons::spec_weapon_from_index(i)).ammo_max,
            }),
    {
        let ammo: [Ammo; 7] = [
            Ammo::Loaded { ready_at: 0, remaining: cfg.mg.ammo_max },
            Ammo::Loaded { ready_at: 0, remaining: cfg.rail.ammo_max },
            Ammo::Loaded { ready_at: 0, remaining: cfg.cb.ammo_max },
            Ammo::Loaded { ready_at: 0, remaining: cfg.rockets.ammo_max },
            Ammo::Loaded { ready_at: 0, remaining: cfg.hm.ammo_max },
            Ammo::Loaded { ready_at: 0, remaining: cfg.gm.ammo_max },
            Ammo::Loaded { ready_at: 0, remaining: cfg.bfg.ammo_max },
        ];
        Vehicle {
            kind,
            body: BodyState { pos, vel: Vec2 { x: 0, y: 0 }, angle, turn_rate: 0 },
            turret_angle: 0,
            hp: cfg.max_hp(kind),
            cur_weapon: Weapon::Mg,
            ammo,
        }
    }
}

/// A moving projectile.  Beam weapons never become one; the fields a
/// weapon kind does not use stay at their spawn values.
#[derive(Clone, Copy, PartialEq, Eq, Structural, Debug)]
pub struct Projectile {
    pub weapon: Weapon,
    pub pos: Vec2,
    pub vel: Vec2,
    /// Index of the owning player.
    pub owner: usize,
    /// Facing of guided and homing missiles, mrad in `[0, ANG_TAU)`.
    pub angle: i64,
    /// Turn rate of guided and homing missiles, mrad/s.
    pub turn_rate: i64,
    /// Forced-impact deadline, for weapons that carry one.
    pub deadline: Option<i64>,
}

impl Projectile {
    pub open spec fn wf(self) -> bool {
        &&& bounded(self.pos, PROJ_POS_BOUND as int)
        &&& bounded(self.vel, PROJ_VEL_BOUND as int)
        &&& 0 <= self.angle < ANG_TAU
        &&& -TR_CAP <= self.turn_rate <= TR_CAP
        &&& (self.deadline matches Some(d) ==> 0 <= d <= TIME_CAP + 2 * DURATION_CAP)
    }
}

/// A transient render hint: one frame of an instantaneous beam.
#[derive(Clone, Copy, PartialEq, Eq, Structural, Debug)]
pub struct RailBeam {
    pub begin: Vec2,
    pub end: Vec2,
    pub start_time: i64,
}

impl RailBeam {
    pub fn new(begin: Vec2, end: Vec2, start_time: i64) -> (r: RailBeam)
        ensures
            r == (RailBeam { begin, end, start_time }),
    {
        RailBeam { begin, end, start_time }
    }
}

/// Presentational state owned by the simulation because spawning one is
/// a game-logic event; collected once its duration has elapsed.
#[derive(Clone, Copy, PartialEq, Eq, Structural, Debug)]
pub struct Explosion {
    pub pos: Vec2,
    /// Visual scale, FP-scaled.
    pub scale: i64,
    pub start_time: i64,
    /// The cyan BFG variant.
    pub bfg: bool,
}

impl Explosion {
    pub fn new(pos: Vec2, scale: i64, start_time: i64, bfg: bool) -> (r: Explosion)
        ensures
            r == (Explosion { pos, scale, start_time, bfg }),
    {
        Explosion { pos, scale, start_time, bfg }
    }
}

/// A handle into the projectile arena: a slot index plus the generation
/// the slot had when the projectile was inserted.  A handle whose
/// generation no longer matches is stale and resolves to nothing.
#[derive(Clone, Copy, PartialEq, Eq, Structural, Debug)]
pub struct ProjHandle {
    pub idx: usize,
    pub gen: u64,
}

/// One participant: an optional owned vehicle, an optional link to the
/// guided missile currently under this player's control, and the intent
/// vectors of this and the previous tick (for edge detection).
#[derive(Clone, Copy, PartialEq, Eq, Debug)]
pub struct Player {
    pub vehicle: Option<Vehicle>,
    pub guided_missile: Option<ProjHandle>,
    pub input: Input,
    pub input_prev: Input,
}

impl Player {
    pub open spec fn wf(self, cfg: Config) -> bool {
        self.vehicle matches Some(v) ==> v.wf(cfg)
    }
}

} // verus!
