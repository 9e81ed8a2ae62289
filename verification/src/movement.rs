//! The shared movement model of vehicles and guided missiles.
//!
//! Turning integrates a turn rate with constant and multiplicative
//! friction; acceleration integrates velocity the same way; a car-like
//! steering approximation scales the turn by signed speed.  Vehicles
//! additionally test their rotated hitbox corners against the map: a
//! blocked turn keeps the old facing and bounces the turn rate back
//! halved, a blocked move keeps the old position and bounces the
//! velocity back halved, and the two checks are independent.

use crate::angle::{cos_mrad, sin_mrad, spec_cos, spec_sin, spec_wrap_ang, wrap_ang, ANG_TAU};
use crate::config::{Hitbox, MovementStats, DT_CAP, OFFSET_CAP, POS_MAX, SPEED_CAP};
use crate::fx;
use crate::fx::{spec_fp_pow, tdiv, FP};
use crate::input::Input;
use crate::tilemap::TileMap;
use crate::vec2::{bounded, lemma_mul_abs_bound, lemma_rotate_bound, Vec2};
use vstd::prelude::*;

verus! {

/// Bound on a vehicle center: anywhere in the largest map, plus the
/// reach of a rotated hitbox corner.
pub const POS_BOUND: i64 = 1_002_000_000;

/// Largest velocity the movement model operates on: any projectile or
/// vehicle velocity, with slack.
pub const MODEL_VEL_MAX: i64 = 110_000_000;

/// The kinematic state shared by vehicles and guided missiles.
#[derive(Clone, Copy, PartialEq, Eq, Structural, Debug)]
pub struct BodyState {
    pub pos: Vec2,
    pub vel: Vec2,
    /// Facing, milliradians in `[0, ANG_TAU)`.
    pub angle: i64,
    /// Signed angular velocity, mrad/s.
    pub turn_rate: i64,
}

impl BodyState {
    pub open spec fn wf(self, stats: MovementStats) -> bool {
        &&& bounded(self.pos, POS_BOUND as int)
        &&& bounded(self.vel, stats.speed_max as int)
        &&& 0 <= self.angle < ANG_TAU
        &&& -stats.turn_rate_max <= self.turn_rate <= stats.turn_rate_max
    }
}

/// Turn rate after input gain, both friction components and the clamp.
pub open spec fn spec_turn_rate_after(stats: MovementStats, tr: int, rl: int, dt: int) -> int {
    let tr1 = tr + tdiv(rl * stats.turn_rate_increase * dt, 1000);
    let fric = tdiv(stats.turn_rate_friction_const * dt, 1000);
    let tr2 = if tr1 >= 0 {
        if tr1 - fric >= 0 {
            tr1 - fric
        } else {
            0
        }
    } else {
        if tr1 + fric <= 0 {
            tr1 + fric
        } else {
            0
        }
    };
    let tr3 = tdiv(tr2 * spec_fp_pow(stats.turn_rate_friction_linear as int, dt), FP as int);
    fx::spec_clamp(tr3, -stats.turn_rate_max as int, stats.turn_rate_max as int)
}

fn turn_rate_after(stats: &MovementStats, tr: i64, rl: i64, dt: i64) -> (r: i64)
    requires
        stats.valid(),
        -stats.turn_rate_max <= tr <= stats.turn_rate_max,
        -1 <= rl <= 1,
        0 <= dt <= DT_CAP,
    ensures
        r == spec_turn_rate_after(*stats, tr as int, rl as int, dt as int),
        -stats.turn_rate_max <= r <= stats.turn_rate_max,
{
    proof {
        lemma_mul_abs_bound(rl as int, stats.turn_rate_increase as int, 1, 100_000);
        lemma_mul_abs_bound(rl * stats.turn_rate_increase, dt as int, 100_000, DT_CAP as int);
        fx::lemma_tdiv_bound(rl * stats.turn_rate_increase * dt, 1000, 100_000);
        lemma_mul_abs_bound(stats.turn_rate_friction_const as int, dt as int, 100_000, DT_CAP as int);
        fx::lemma_tdiv_bound(stats.turn_rate_friction_const * dt, 1000, 100_000);
    }
    let tr1 = tr + (rl * stats.turn_rate_increase * dt) / 1000;
    let fric = (stats.turn_rate_friction_const * dt) / 1000;
    let tr2 = if tr1 >= 0 {
        if tr1 - fric >= 0 {
            tr1 - fric
        } else {
            0
        }
    } else {
        if tr1 + fric <= 0 {
            tr1 + fric
        } else {
            0
        }
    };
    let pw = fx::fp_pow(stats.turn_rate_friction_linear, dt);
    proof {
        lemma_mul_abs_bound(tr2 as int, pw as int, 106_000, FP as int);
        fx::lemma_tdiv_bound(tr2 * pw, FP as int, 106_000);
    }
    let tr3 = (tr2 * pw) / FP;
    fx::clamp64(tr3, -stats.turn_rate_max, stats.turn_rate_max)
}

/// The car-steering factor: the signed fraction of the steering speed
/// cap the body currently moves at, or one for in-place steering.
pub open spec fn spec_steering_coef(stats: MovementStats, vel: Vec2, angle: int) -> int {
    if stats.steering_car > 0 {
        let dotp = spec_cos(angle) * vel.x + spec_sin(angle) * vel.y;
        let sp = if vel.spec_mag() <= stats.steering_car {
            vel.spec_mag()
        } else {
            stats.steering_car as int
        };
        let c = tdiv(sp * FP, stats.steering_car as int);
        if dotp >= 0 {
            c
        } else {
            -c
        }
    } else {
        FP as int
    }
}

fn steering_coef(stats: &MovementStats, vel: Vec2, angle: i64) -> (r: i64)
    requires
        stats.valid(),
        bounded(vel, MODEL_VEL_MAX as int),
        0 <= angle < ANG_TAU,
    ensures
        r == spec_steering_coef(*stats, vel, angle as int),
        -FP <= r <= FP,
{
    if stats.steering_car > 0 {
        let c = cos_mrad(angle);
        let s = sin_mrad(angle);
        proof {
            lemma_mul_abs_bound(c as int, vel.x as int, FP as int, MODEL_VEL_MAX as int);
            lemma_mul_abs_bound(s as int, vel.y as int, FP as int, MODEL_VEL_MAX as int);
        }
        let dotp = c * vel.x + s * vel.y;
        let mag = vel.magnitude();
        let sp = fx::min64(mag, stats.steering_car);
        proof {
            lemma_mul_abs_bound(sp as int, FP as int, stats.steering_car as int, FP as int);
            fx::lemma_tdiv_bound(sp * FP, stats.steering_car as int, FP as int);
        }
        let coef = (sp * FP) / stats.steering_car;
        if dotp >= 0 {
            coef
        } else {
            -coef
        }
    } else {
        FP
    }
}

/// One turning step: the turn rate integrates, the velocity is partially
/// rotated by the steered turn, and the candidate new facing is the old
/// facing advanced by the steered turn, wrapped.
pub open spec fn spec_turning(
    stats: MovementStats,
    vel: Vec2,
    angle: int,
    turn_rate: int,
    input: Input,
    dt: int,
) -> (Vec2, int, int) {
    let tr4 = spec_turn_rate_after(stats, turn_rate, input.spec_right_left(), dt);
    let coef = spec_steering_coef(stats, vel, angle);
    let turn = tdiv(tdiv(tr4 * dt, 1000) * coef, FP as int);
    let vel_rot = tdiv(turn * stats.turn_effectiveness, FP as int);
    let new_vel = vel.spec_rotate(spec_wrap_ang(vel_rot));
    let cand = spec_wrap_ang(angle + turn);
    (new_vel, cand, tr4)
}

pub fn turning(
    stats: &MovementStats,
    vel: Vec2,
    angle: i64,
    turn_rate: i64,
    input: Input,
    dt: i64,
) -> (r: (Vec2, i64, i64))
    requires
        stats.valid(),
        bounded(vel, MODEL_VEL_MAX as int),
        0 <= angle < ANG_TAU,
        -stats.turn_rate_max <= turn_rate <= stats.turn_rate_max,
        0 <= dt <= DT_CAP,
    ensures
        (r.0, r.1 as int, r.2 as int) == spec_turning(
            *stats,
            vel,
            angle as int,
            turn_rate as int,
            input,
            dt as int,
        ),
        bounded(r.0, 2 * MODEL_VEL_MAX as int),
        0 <= r.1 < ANG_TAU,
        -stats.turn_rate_max <= r.2 <= stats.turn_rate_max,
{
    let rl = input.right_left();
    let tr4 = turn_rate_after(stats, turn_rate, rl, dt);
    let coef = steering_coef(stats, vel, angle);
    proof {
        lemma_mul_abs_bound(tr4 as int, dt as int, 6_000, DT_CAP as int);
        fx::lemma_tdiv_bound(tr4 * dt, 1000, 6_000);
        lemma_mul_abs_bound(tdiv(tr4 * dt, 1000), coef as int, 6_000, FP as int);
        fx::lemma_tdiv_bound(tdiv(tr4 * dt, 1000) * coef, FP as int, 6_000);
    }
    let turn = ((tr4 * dt) / 1000 * coef) / FP;
    proof {
        lemma_mul_abs_bound(turn as int, stats.turn_effectiveness as int, 6_000, FP as int);
        fx::lemma_tdiv_bound(turn * stats.turn_effectiveness, FP as int, 6_000);
    }
    let vel_rot = (turn * stats.turn_effectiveness) / FP;
    let wr = wrap_ang(vel_rot);
    let new_vel = vel.rotate(wr);
    proof {
        crate::angle::lemma_sin_range(wr as int);
        crate::angle::lemma_cos_range(wr as int);
        lemma_rotate_bound(vel, spec_sin(wr as int), spec_cos(wr as int), MODEL_VEL_MAX as int);
    }
    let cand = wrap_ang(angle + turn);
    (new_vel, cand, tr4)
}

/// One acceleration step: thrust along the facing, constant then
/// multiplicative speed friction, then the speed clamp.
pub open spec fn spec_accel_decel(
    stats: MovementStats,
    vel: Vec2,
    angle: int,
    input: Input,
    dt: int,
) -> Vec2 {
    let fwd: int = if input.up {
        stats.accel_forward as int
    } else {
        0
    };
    let back: int = if input.down {
        stats.accel_backward as int
    } else {
        0
    };
    let vc = tdiv((fwd - back) * dt, 1000);
    let vel1 = Vec2 {
        x: (vel.x + tdiv(spec_cos(angle) * vc, FP as int)) as i64,
        y: (vel.y + tdiv(spec_sin(angle) * vc, FP as int)) as i64,
    };
    let fric = tdiv(stats.friction_const * dt, 1000);
    let m1 = vel1.spec_mag();
    let fe: int = if fric <= m1 {
        fric
    } else {
        m1
    };
    let vel2 = if m1 == 0 {
        vel1
    } else {
        Vec2 { x: tdiv(vel1.x * (m1 - fe), m1) as i64, y: tdiv(vel1.y * (m1 - fe), m1) as i64 }
    };
    let pw = spec_fp_pow(stats.friction_linear as int, dt);
    let vel3 = Vec2 { x: tdiv(vel2.x * pw, FP as int) as i64, y: tdiv(vel2.y * pw, FP as int) as i64 };
    if vel3.spec_mag2() > stats.speed_max * stats.speed_max {
        let m3 = vel3.spec_mag();
        Vec2 {
            x: tdiv(vel3.x * stats.speed_max, m3) as i64,
            y: tdiv(vel3.y * stats.speed_max, m3) as i64,
        }
    } else {
        vel3
    }
}

/// A component never exceeds the rounded-down magnitude.
proof fn lemma_component_le_mag(v: Vec2, m: int)
    requires
        v.spec_mag2() < (m + 1) * (m + 1),
        m >= 0,
    ensures
        -m <= v.x <= m,
        -m <= v.y <= m,
{
    assert(-m <= v.x <= m && -m <= v.y <= m) by (nonlinear_arith)
        requires
            v.x * v.x + v.y * v.y < (m + 1) * (m + 1),
            m >= 0;
}

pub fn accel_decel(stats: &MovementStats, vel: Vec2, angle: i64, input: Input, dt: i64) -> (r:
    Vec2)
    requires
        stats.valid(),
        bounded(vel, 2 * MODEL_VEL_MAX as int),
        0 <= angle < ANG_TAU,
        0 <= dt <= DT_CAP,
    ensures
        r == spec_accel_decel(*stats, vel, angle as int, input, dt as int),
        bounded(r, stats.speed_max as int),
{
    let fwd: i64 = if input.up {
        stats.accel_forward
    } else {
        0
    };
    let back: i64 = if input.down {
        stats.accel_backward
    } else {
        0
    };
    proof {
        lemma_mul_abs_bound((fwd - back) as int, dt as int, 10_000_000, DT_CAP as int);
        fx::lemma_tdiv_bound((fwd - back) * dt, 1000, 10_000_000);
    }
    let vc = ((fwd - back) * dt) / 1000;
    let c = cos_mrad(angle);
    let s = sin_mrad(angle);
    proof {
        lemma_mul_abs_bound(c as int, vc as int, FP as int, 10_000_000);
        lemma_mul_abs_bound(s as int, vc as int, FP as int, 10_000_000);
        fx::lemma_tdiv_bound(c * vc, FP as int, 10_000_000);
        fx::lemma_tdiv_bound(s * vc, FP as int, 10_000_000);
    }
    let vel1 = Vec2 { x: vel.x + (c * vc) / FP, y: vel.y + (s * vc) / FP };
    proof {
        lemma_mul_abs_bound(stats.friction_const as int, dt as int, 10_000_000, DT_CAP as int);
        fx::lemma_tdiv_bound(stats.friction_const * dt, 1000, 10_000_000);
        assert(stats.friction_const * dt >= 0) by (nonlinear_arith)
            requires stats.friction_const >= 0, dt >= 0;
        fx::lemma_tdiv_nonneg(stats.friction_const * dt, 1000);
    }
    let fric = (stats.friction_const * dt) / 1000;
    let m1 = vel1.magnitude();
    let fe = fx::min64(fric, m1);
    let vel2 = if m1 == 0 {
        vel1
    } else {
        proof {
            lemma_mul_abs_bound(vel1.x as int, (m1 - fe) as int, 240_000_000, m1 as int);
            lemma_mul_abs_bound(vel1.y as int, (m1 - fe) as int, 240_000_000, m1 as int);
            fx::lemma_tdiv_bound(vel1.x * (m1 - fe), m1 as int, 240_000_000);
            fx::lemma_tdiv_bound(vel1.y * (m1 - fe), m1 as int, 240_000_000);
        }
        Vec2 { x: (vel1.x * (m1 - fe)) / m1, y: (vel1.y * (m1 - fe)) / m1 }
    };
    let pw = fx::fp_pow(stats.friction_linear, dt);
    proof {
        lemma_mul_abs_bound(vel2.x as int, pw as int, 240_000_000, FP as int);
        lemma_mul_abs_bound(vel2.y as int, pw as int, 240_000_000, FP as int);
        fx::lemma_tdiv_bound(vel2.x * pw, FP as int, 240_000_000);
        fx::lemma_tdiv_bound(vel2.y * pw, FP as int, 240_000_000);
    }
    let vel3 = Vec2 { x: (vel2.x * pw) / FP, y: (vel2.y * pw) / FP };
    let m3sq = vel3.mag2();
    proof {
        lemma_mul_abs_bound(stats.speed_max as int, stats.speed_max as int, SPEED_CAP as int, SPEED_CAP as int);
    }
    if m3sq > stats.speed_max * stats.speed_max {
        let m3 = vel3.magnitude();
        proof {
            assert(m3 >= 1) by (nonlinear_arith)
                requires
                    (m3 + 1) * (m3 + 1) > vel3.spec_mag2(),
                    vel3.spec_mag2() > stats.speed_max * stats.speed_max,
                    stats.speed_max >= 1,
                    m3 >= 0;
            lemma_component_le_mag(vel3, m3 as int);
            lemma_mul_abs_bound(vel3.x as int, stats.speed_max as int, m3 as int, stats.speed_max as int);
            lemma_mul_abs_bound(vel3.y as int, stats.speed_max as int, m3 as int, stats.speed_max as int);
            assert(m3 * stats.speed_max == stats.speed_max * m3) by (nonlinear_arith);
            assert(m3 * stats.speed_max <= 240_000_000_000_000_000) by (nonlinear_arith)
                requires 0 <= m3 <= 3_000_000_000, 0 <= stats.speed_max <= 10_000_000;
            fx::lemma_tdiv_bound(vel3.x * stats.speed_max, m3 as int, stats.speed_max as int);
            fx::lemma_tdiv_bound(vel3.y * stats.speed_max, m3 as int, stats.speed_max as int);
        }
        Vec2 { x: (vel3.x * stats.speed_max) / m3, y: (vel3.y * stats.speed_max) / m3 }
    } else {
        proof {
            assert(stats.speed_max * stats.speed_max < (stats.speed_max + 1) * (stats.speed_max
                + 1)) by (nonlinear_arith)
                requires stats.speed_max >= 0;
            lemma_component_le_mag(vel3, stats.speed_max as int);
        }
        vel3
    }
}

/// The four rotated hitbox corners.
pub open spec fn spec_corners_hit(map: TileMap, hb: Hitbox, pos: Vec2, angle: int) -> bool {
    let c0 = pos.spec_add((Vec2 { x: hb.mins.x, y: hb.mins.y }).spec_rotate(angle));
    let c1 = pos.spec_add((Vec2 { x: hb.maxs.x, y: hb.mins.y }).spec_rotate(angle));
    let c2 = pos.spec_add((Vec2 { x: hb.maxs.x, y: hb.maxs.y }).spec_rotate(angle));
    let c3 = pos.spec_add((Vec2 { x: hb.mins.x, y: hb.maxs.y }).spec_rotate(angle));
    ||| map.spec_collision(c0)
    ||| map.spec_collision(c1)
    ||| map.spec_collision(c2)
    ||| map.spec_collision(c3)
}

/// Whether any rotated hitbox corner at `pos` with facing `angle`
/// stands in a wall.
pub fn corners_hit(map: &TileMap, hb: Hitbox, pos: Vec2, angle: i64) -> (r: bool)
    requires
        map.dims_ok(),
        hb.valid(),
        bounded(pos, 2_000_000_000),
        0 <= angle < ANG_TAU,
    ensures
        r == spec_corners_hit(*map, hb, pos, angle as int),
{
    let o0 = Vec2 { x: hb.mins.x, y: hb.mins.y };
    let o1 = Vec2 { x: hb.maxs.x, y: hb.mins.y };
    let o2 = Vec2 { x: hb.maxs.x, y: hb.maxs.y };
    let o3 = Vec2 { x: hb.mins.x, y: hb.maxs.y };
    proof {
        crate::angle::lemma_sin_range(angle as int);
        crate::angle::lemma_cos_range(angle as int);
        lemma_rotate_bound(o0, spec_sin(angle as int), spec_cos(angle as int), OFFSET_CAP as int);
        lemma_rotate_bound(o1, spec_sin(angle as int), spec_cos(angle as int), OFFSET_CAP as int);
        lemma_rotate_bound(o2, spec_sin(angle as int), spec_cos(angle as int), OFFSET_CAP as int);
        lemma_rotate_bound(o3, spec_sin(angle as int), spec_cos(angle as int), OFFSET_CAP as int);
    }
    let c0 = pos.add(o0.rotate(angle));
    let c1 = pos.add(o1.rotate(angle));
    let c2 = pos.add(o2.rotate(angle));
    let c3 = pos.add(o3.rotate(angle));
    map.collision(c0) || map.collision(c1) || map.collision(c2) || map.collision(c3)
}

/// A bounce-back: inverted and halved.
pub open spec fn spec_halved_back(v: int) -> int {
    -tdiv(v, 2)
}

/// One whole vehicle movement tick: turning with its wall check, then
/// acceleration, then translation with its own wall check.
pub open spec fn spec_vehicle_movement(
    map: TileMap,
    stats: MovementStats,
    hb: Hitbox,
    b: BodyState,
    input: Input,
    dt: int,
) -> BodyState {
    let t = spec_turning(stats, b.vel, b.angle as int, b.turn_rate as int, input, dt);
    let turn_blocked = spec_corners_hit(map, hb, b.pos, t.1);
    let angle1: int = if turn_blocked {
        b.angle as int
    } else {
        t.1
    };
    let tr2: int = if turn_blocked {
        spec_halved_back(t.2)
    } else {
        t.2
    };
    let vel2 = spec_accel_decel(stats, t.0, angle1, input, dt);
    let newpos = b.pos.spec_add(vel2.spec_mul_div(dt, 1000));
    let move_blocked = spec_corners_hit(map, hb, newpos, angle1);
    BodyState {
        pos: if move_blocked {
            b.pos
        } else {
            newpos
        },
        vel: if move_blocked {
            Vec2 {
                x: spec_halved_back(vel2.x as int) as i64,
                y: spec_halved_back(vel2.y as int) as i64,
            }
        } else {
            vel2
        },
        angle: angle1 as i64,
        turn_rate: tr2 as i64,
    }
}

/// One per-tick movement of a vehicle, §-ordered: the candidate turn is
/// rolled back if a rotated corner would stand in a wall (the turn rate
/// bounces back halved), and the candidate translation is rolled back
/// independently if a corner at the new position would (the velocity
/// bounces back halved).
pub fn vehicle_movement(
    map: &TileMap,
    stats: &MovementStats,
    hb: Hitbox,
    b: BodyState,
    input: Input,
    dt: i64,
) -> (r: BodyState)
    requires
        map.dims_ok(),
        stats.valid(),
        hb.valid(),
        b.wf(*stats),
        0 <= dt <= DT_CAP,
    ensures
        r == spec_vehicle_movement(*map, *stats, hb, b, input, dt as int),
        r.wf(*stats),
        ({
            let t = spec_turning(*stats, b.vel, b.angle as int, b.turn_rate as int, input, dt as int);
            spec_corners_hit(*map, hb, b.pos, t.1) ==> r.angle == b.angle
        }),
        ({
            let t = spec_turning(*stats, b.vel, b.angle as int, b.turn_rate as int, input, dt as int);
            let angle1: int = if spec_corners_hit(*map, hb, b.pos, t.1) {
                b.angle as int
            } else {
                t.1
            };
            let vel2 = spec_accel_decel(*stats, t.0, angle1, input, dt as int);
            let newpos = b.pos.spec_add(vel2.spec_mul_div(dt as int, 1000));
            spec_corners_hit(*map, hb, newpos, angle1) ==> r.pos == b.pos
        }),
{
    let t = turning(stats, b.vel, b.angle, b.turn_rate, input, dt);
    let vel1 = t.0;
    let cand = t.1;
    let tr1 = t.2;
    let turn_blocked = corners_hit(map, hb, b.pos, cand);
    let angle1 = if turn_blocked {
        b.angle
    } else {
        cand
    };
    let tr2 = if turn_blocked {
        proof {
            fx::lemma_tdiv_bound(tr1 as int, 2, stats.turn_rate_max as int);
        }
        -(tr1 / 2)
    } else {
        tr1
    };
    let vel2 = accel_decel(stats, vel1, angle1, input, dt);
    let delta = vel2.mul_div(dt, 1000);
    proof {
        lemma_mul_abs_bound(vel2.x as int, dt as int, stats.speed_max as int, 1000);
        lemma_mul_abs_bound(vel2.y as int, dt as int, stats.speed_max as int, 1000);
        fx::lemma_tdiv_bound(vel2.x * dt, 1000, stats.speed_max as int);
        fx::lemma_tdiv_bound(vel2.y * dt, 1000, stats.speed_max as int);
    }
    let newpos = b.pos.add(delta);
    let move_blocked = corners_hit(map, hb, newpos, angle1);
    if move_blocked {
        proof {
            fx::lemma_tdiv_bound(vel2.x as int, 2, stats.speed_max as int);
            fx::lemma_tdiv_bound(vel2.y as int, 2, stats.speed_max as int);
        }
        BodyState {
            pos: b.pos,
            vel: Vec2 { x: -(vel2.x / 2), y: -(vel2.y / 2) },
            angle: angle1,
            turn_rate: tr2,
        }
    } else {
        proof {
            let ghost rot0 = (Vec2 { x: hb.mins.x, y: hb.mins.y }).spec_rotate(angle1 as int);
            let ghost c0 = newpos.spec_add(rot0);
            crate::angle::lemma_sin_range(angle1 as int);
            crate::angle::lemma_cos_range(angle1 as int);
            lemma_rotate_bound(
                Vec2 { x: hb.mins.x, y: hb.mins.y },
                spec_sin(angle1 as int),
                spec_cos(angle1 as int),
                OFFSET_CAP as int,
            );
            assert(!map.spec_collision(c0));
            map.lemma_free_in_map(c0);
            assert(bounded(newpos, POS_BOUND as int));
        }
        BodyState { pos: newpos, vel: vel2, angle: angle1, turn_rate: tr2 }
    }
}

/// One steering tick of a guided or homing missile: the shared turning
/// and acceleration steps, with no wall interaction (the projectile
/// pass resolves wall hits along the flight path).
pub open spec fn spec_missile_steer(
    stats: MovementStats,
    vel: Vec2,
    angle: int,
    turn_rate: int,
    input: Input,
    dt: int,
) -> (Vec2, int, int) {
    let t = spec_turning(stats, vel, angle, turn_rate, input, dt);
    let vel2 = spec_accel_decel(stats, t.0, t.1, input, dt);
    (vel2, t.1, t.2)
}

pub fn missile_steer(
    stats: &MovementStats,
    vel: Vec2,
    angle: i64,
    turn_rate: i64,
    input: Input,
    dt: i64,
) -> (r: (Vec2, i64, i64))
    requires
        stats.valid(),
        bounded(vel, MODEL_VEL_MAX as int),
        0 <= angle < ANG_TAU,
        -stats.turn_rate_max <= turn_rate <= stats.turn_rate_max,
        0 <= dt <= DT_CAP,
    ensures
        (r.0, r.1 as int, r.2 as int) == spec_missile_steer(
            *stats,
            vel,
            angle as int,
            turn_rate as int,
            input,
            dt as int,
        ),
        bounded(r.0, stats.speed_max as int),
        0 <= r.1 < ANG_TAU,
        -stats.turn_rate_max <= r.2 <= stats.turn_rate_max,
{
    let t = turning(stats, vel, angle, turn_rate, input, dt);
    let vel2 = accel_decel(stats, t.0, t.1, input, dt);
    (vel2, t.1, t.2)
}


/// With a zero time step the turn-rate integration is the identity.
proof fn lemma_zero_dt_turn_rate(stats: MovementStats, tr: int, rl: int)
    requires
        stats.valid(),
        -stats.turn_rate_max <= tr <= stats.turn_rate_max,
    ensures
        spec_turn_rate_after(stats, tr, rl, 0) == tr,
{
    assert(rl * stats.turn_rate_increase * 0 == 0) by (nonlinear_arith);
    assert(stats.turn_rate_friction_const * 0 == 0) by (nonlinear_arith);
    fx::lemma_tdiv_zero(1000);
    assert(spec_fp_pow(stats.turn_rate_friction_linear as int, 0) == FP);
    fx::lemma_tdiv_exact(tr, FP as int);
}

/// With a zero time step the turning step is the identity, whatever the
/// input: every change it could make is scaled by the elapsed time.
pub proof fn lemma_zero_dt_turning(
    stats: MovementStats,
    vel: Vec2,
    angle: int,
    tr: int,
    input: Input,
)
    requires
        stats.valid(),
        -stats.turn_rate_max <= tr <= stats.turn_rate_max,
        0 <= angle < ANG_TAU,
    ensures
        spec_turning(stats, vel, angle, tr, input, 0) == (vel, angle, tr),
{
    lemma_zero_dt_turn_rate(stats, tr, input.spec_right_left());
    let coef = spec_steering_coef(stats, vel, angle);
    assert(tr * 0 == 0) by (nonlinear_arith);
    fx::lemma_tdiv_zero(1000);
    assert(tdiv(tr * 0, 1000) * coef == 0) by (nonlinear_arith)
        requires tdiv(tr * 0, 1000) == 0;
    fx::lemma_tdiv_zero(FP as int);
    assert(tdiv(tdiv(tr * 0, 1000) * coef, FP as int) == 0);
    assert(0 * stats.turn_effectiveness == 0) by (nonlinear_arith);
    assert(spec_wrap_ang(0) == 0);
    crate::angle::lemma_sin_cos_zero();
    crate::vec2::lemma_rotate_zero(vel);
    assert(spec_wrap_ang(angle + 0) == angle);
}

/// With a zero time step the acceleration step is the identity, as long
/// as the speed is already inside the clamp.
pub proof fn lemma_zero_dt_accel(stats: MovementStats, vel: Vec2, angle: int, input: Input)
    requires
        stats.valid(),
        0 <= angle < ANG_TAU,
        vel.spec_mag2() <= stats.speed_max * stats.speed_max,
    ensures
        spec_accel_decel(stats, vel, angle, input, 0) == vel,
{
    let fwd: int = if input.up {
        stats.accel_forward as int
    } else {
        0
    };
    let back: int = if input.down {
        stats.accel_backward as int
    } else {
        0
    };
    assert((fwd - back) * 0 == 0) by (nonlinear_arith);
    fx::lemma_tdiv_zero(1000);
    assert(spec_cos(angle) * 0 == 0) by (nonlinear_arith);
    assert(spec_sin(angle) * 0 == 0) by (nonlinear_arith);
    fx::lemma_tdiv_zero(FP as int);
    let vel1 = Vec2 {
        x: (vel.x + tdiv(spec_cos(angle) * 0, FP as int)) as i64,
        y: (vel.y + tdiv(spec_sin(angle) * 0, FP as int)) as i64,
    };
    assert(vel1 == vel);
    assert(stats.friction_const * 0 == 0) by (nonlinear_arith);
    crate::vec2::lemma_mag_bracket(vel);
    let m1 = vel.spec_mag();
    if m1 != 0 {
        fx::lemma_tdiv_exact(vel.x as int, m1);
        fx::lemma_tdiv_exact(vel.y as int, m1);
    }
    assert(spec_fp_pow(stats.friction_linear as int, 0) == FP);
    fx::lemma_tdiv_exact(vel.x as int, FP as int);
    fx::lemma_tdiv_exact(vel.y as int, FP as int);
}

/// With a zero time step and no wall contact, one whole vehicle
/// movement tick changes nothing: no friction drift, no turn, no
/// translation, whatever the input.
pub proof fn lemma_zero_dt_vehicle_movement(
    map: TileMap,
    stats: MovementStats,
    hb: Hitbox,
    b: BodyState,
    input: Input,
)
    requires
        stats.valid(),
        hb.valid(),
        b.wf(stats),
        b.vel.spec_mag2() <= stats.speed_max * stats.speed_max,
        !spec_corners_hit(map, hb, b.pos, b.angle as int),
    ensures
        spec_vehicle_movement(map, stats, hb, b, input, 0) == b,
{
    lemma_zero_dt_turning(stats, b.vel, b.angle as int, b.turn_rate as int, input);
    lemma_zero_dt_accel(stats, b.vel, b.angle as int, input);
    assert(b.vel.x * 0 == 0) by (nonlinear_arith);
    assert(b.vel.y * 0 == 0) by (nonlinear_arith);
    fx::lemma_tdiv_zero(1000);
    assert(b.vel.spec_mul_div(0, 1000) == (Vec2 { x: 0, y: 0 }));
    assert(b.pos.spec_add(Vec2 { x: 0, y: 0 }) == b.pos);
}

/// With a zero time step one missile steering tick changes nothing.
pub proof fn lemma_zero_dt_missile_steer(
    stats: MovementStats,
    vel: Vec2,
    angle: int,
    tr: int,
    input: Input,
)
    requires
        stats.valid(),
        -stats.turn_rate_max <= tr <= stats.turn_rate_max,
        0 <= angle < ANG_TAU,
        vel.spec_mag2() <= stats.speed_max * stats.speed_max,
    ensures
        spec_missile_steer(stats, vel, angle, tr, input, 0) == (vel, angle, tr),
{
    lemma_zero_dt_turning(stats, vel, angle, tr, input);
    lemma_zero_dt_accel(stats, vel, angle, input);
}

} // verus!
