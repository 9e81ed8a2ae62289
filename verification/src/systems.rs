//! Per-vehicle bookkeeping systems: weapon cycling, turret turning,
//! reloading, damage and self-destruction, and the demultiplexing of a
//! player's intent onto vehicle and missile.

use crate::ammo::Ammo;
use crate::angle::{spec_wrap_ang, wrap_ang, ANG_TAU};
use crate::config::{Config, DMG_LETHAL, DT_CAP, TIME_CAP};
use crate::entities::{Explosion, Player, Vehicle};
use crate::fx;
use crate::fx::{tdiv, FP};
use crate::input::{spec_neutral, Input};
use crate::vec2::lemma_mul_abs_bound;
use crate::weapons::{spec_next_weapon, spec_prev_weapon, weapon_index, Weapon};
use vstd::array::ArrayAdditionalExecFns;
use vstd::prelude::*;

verus! {

/// Weapon cycling is edge-triggered: it reacts to a press this tick
/// that was absent the previous tick, and only moves the selection.
pub open spec fn spec_cycle_weapon(w: Weapon, input: Input, input_prev: Input) -> Weapon {
    let w1 = if input.prev_weapon && !input_prev.prev_weapon {
        spec_prev_weapon(w)
    } else {
        w
    };
    if input.next_weapon && !input_prev.next_weapon {
        spec_next_weapon(w1)
    } else {
        w1
    }
}

pub fn cycle_weapon(w: Weapon, input: Input, input_prev: Input) -> (r: Weapon)
    ensures
        r == spec_cycle_weapon(w, input, input_prev),
{
    let w1 = if input.prev_weapon && !input_prev.prev_weapon {
        w.prev()
    } else {
        w
    };
    if input.next_weapon && !input_prev.next_weapon {
        w1.next()
    } else {
        w1
    }
}

/// Turret angle after this tick's held turret keys, wrapped.
pub open spec fn spec_turret_after(ta: int, input: Input, speed: int, dt: int) -> int {
    let d = tdiv(speed * dt, 1000);
    let t1 = if input.turret_left {
        ta - d
    } else {
        ta
    };
    let t2 = if input.turret_right {
        t1 + d
    } else {
        t1
    };
    spec_wrap_ang(t2)
}

pub fn turret_after(ta: i64, input: Input, speed: i64, dt: i64) -> (r: i64)
    requires
        0 <= ta < ANG_TAU,
        0 <= speed <= 6_000,
        0 <= dt <= DT_CAP,
    ensures
        r == spec_turret_after(ta as int, input, speed as int, dt as int),
        0 <= r < ANG_TAU,
{
    proof {
        lemma_mul_abs_bound(speed as int, dt as int, 6_000, DT_CAP as int);
        fx::lemma_tdiv_bound(speed * dt, 1000, 6_000);
        assert(speed * dt >= 0) by (nonlinear_arith)
            requires speed >= 0, dt >= 0;
        fx::lemma_tdiv_nonneg(speed * dt, 1000);
    }
    let d = (speed * dt) / 1000;
    let t1 = if input.turret_left {
        ta - d
    } else {
        ta
    };
    let t2 = if input.turret_right {
        t1 + d
    } else {
        t1
    };
    wrap_ang(t2)
}

/// The non-movement per-tick vehicle bookkeeping: edge-triggered weapon
/// cycling, turret turning, and finishing an expired reload on the
/// (newly) selected slot.  Everything else is untouched.
pub fn vehicle_logic(cfg: &Config, v: Vehicle, input: Input, input_prev: Input, now: i64, dt: i64)
    -> (r: Vehicle)
    requires
        cfg.valid(),
        v.wf(*cfg),
        0 <= now <= TIME_CAP,
        0 <= dt <= DT_CAP,
    ensures
        r.wf(*cfg),
        r.cur_weapon == spec_cycle_weapon(v.cur_weapon, input, input_prev),
        r.turret_angle == spec_turret_after(
            v.turret_angle as int,
            input,
            cfg.turret_turn_speed as int,
            dt as int,
        ),
        r.ammo@ == v.ammo@.update(
            weapon_index(r.cur_weapon),
            v.ammo[weapon_index(r.cur_weapon)].spec_reload_step(
                now as int,
                cfg.spec_weapon_stats(r.cur_weapon).ammo_max,
            ),
        ),
        r.hp == v.hp,
        r.body == v.body,
        r.kind == v.kind,
{
    let w = cycle_weapon(v.cur_weapon, input, input_prev);
    let ta = turret_after(v.turret_angle, input, cfg.turret_turn_speed, dt);
    let i = w.index();
    let full = cfg.weapon_stats(w).ammo_max;
    let slot = v.ammo[i].reload_step(now, full);
    let mut ammo = v.ammo;
    ammo[i] = slot;
    let r = Vehicle { cur_weapon: w, turret_angle: ta, ammo, ..v };
    proof {
        assert forall|j: int| 0 <= j < 7 implies (#[trigger] r.ammo[j]).wf() by {
            if j != i {
                assert(r.ammo[j] == v.ammo[j]);
            }
        }
    }
    r
}

/// Hit points after a hit: damage subtracts directly and clamps at zero.
pub open spec fn spec_hp_after(hp: int, dmg: int) -> int {
    if hp - dmg <= 0 {
        0
    } else {
        hp - dmg
    }
}

/// Apply `dmg` milli-hit-points to a player's live vehicle.  Hit points
/// never increase.  If the hit is lethal the vehicle is destroyed (hit
/// points exactly zero), exactly one full-scale explosion is pushed at
/// its position, and the player's guided-missile link is cleared; a
/// non-lethal hit has no side effect beyond the numeric decrease.
pub fn damage_vehicle(
    cfg: &Config,
    player: &mut Player,
    now: i64,
    dmg: i64,
    explosions: &mut Vec<Explosion>,
)
    requires
        cfg.valid(),
        old(player).wf(*cfg),
        old(player).vehicle matches Some(v) && v.hp > 0,
        0 <= now <= TIME_CAP,
        0 <= dmg <= DMG_LETHAL,
    ensures
        final(player).wf(*cfg),
        ({
            let v = old(player).vehicle->Some_0;
            let hp2 = spec_hp_after(v.hp as int, dmg as int);
            &&& final(player).vehicle == Some(Vehicle { hp: hp2 as i64, ..v })
            &&& hp2 <= v.hp
            &&& final(player).input == old(player).input
            &&& final(player).input_prev == old(player).input_prev
            &&& (hp2 == 0 ==> final(player).guided_missile is None && final(explosions)@ == old(
                explosions,
            )@.push(
                Explosion { pos: v.body.pos, scale: FP, start_time: now, bfg: false },
            ))
            &&& (hp2 > 0 ==> final(player).guided_missile == old(player).guided_missile
                && final(explosions)@ == old(explosions)@)
        }),
{
    let v = match player.vehicle {
        Some(v) => v,
        None => {
            proof {
                assert(false);
            }
            return ;
        },
    };
    if v.hp - dmg <= 0 {
        let v2 = Vehicle { hp: 0, ..v };
        explosions.push(
            Explosion { pos: v.body.pos, scale: FP, start_time: now, bfg: false },
        );
        player.vehicle = Some(v2);
        player.guided_missile = None;
    } else {
        let v2 = Vehicle { hp: v.hp - dmg, ..v };
        player.vehicle = Some(v2);
    }
}

/// A rising edge of the self-destruct input on a live vehicle: one
/// large cosmetic explosion at once, then lethal damage, which runs the
/// same destruction path as any lethal hit.
pub fn self_destruct(cfg: &Config, player: &mut Player, now: i64, explosions: &mut Vec<Explosion>)
    requires
        cfg.valid(),
        old(player).wf(*cfg),
        0 <= now <= TIME_CAP,
    ensures
        final(player).wf(*cfg),
        final(player).input == old(player).input,
        final(player).input_prev == old(player).input_prev,
        ({
            let p = *old(player);
            let triggered = p.input.self_destruct && !p.input_prev.self_destruct
                && (p.vehicle matches Some(v) && v.hp > 0);
            &&& (!triggered ==> *final(player) == p && final(explosions)@ == old(explosions)@)
            &&& (triggered ==> {
                let v = p.vehicle->Some_0;
                &&& final(player).vehicle == Some(Vehicle { hp: 0, ..v })
                &&& final(player).guided_missile is None
                &&& final(explosions)@ == old(explosions)@.push(
                    Explosion {
                        pos: v.body.pos,
                        scale: cfg.self_destruct_scale,
                        start_time: now,
                        bfg: false,
                    },
                ).push(Explosion { pos: v.body.pos, scale: FP, start_time: now, bfg: false })
            })
        }),
{
    if !(player.input.self_destruct && !player.input_prev.self_destruct) {
        return ;
    }
    let v = match player.vehicle {
        Some(v) => v,
        None => { return ; },
    };
    if v.hp == 0 {
        return ;
    }
    explosions.push(
        Explosion { pos: v.body.pos, scale: cfg.self_destruct_scale, start_time: now, bfg: false },
    );
    damage_vehicle(cfg, player, now, DMG_LETHAL, explosions);
}

/// The slice of a player's intent their vehicle obeys this tick: none
/// after death, the turret-and-trigger slice while guiding a missile,
/// the whole intent otherwise.
pub open spec fn spec_vehicle_input(p: Player) -> Input {
    match p.vehicle {
        None => spec_neutral(),
        Some(v) => {
            if v.spec_destroyed() {
                spec_neutral()
            } else if p.guided_missile is Some {
                p.input.spec_vehicle_while_guiding()
            } else {
                p.input
            }
        },
    }
}

pub fn vehicle_input(p: &Player) -> (r: Input)
    ensures
        r == spec_vehicle_input(*p),
{
    match p.vehicle {
        None => Input::neutral(),
        Some(v) => {
            if v.destroyed() {
                Input::neutral()
            } else if p.guided_missile.is_some() {
                p.input.vehicle_while_guiding()
            } else {
                p.input
            }
        },
    }
}

/// A missile not under player control flies on by itself: neutral
/// intent with thrust held.
pub open spec fn spec_autonomous_input() -> Input {
    Input { up: true, ..spec_neutral() }
}

pub fn autonomous_input() -> (r: Input)
    ensures
        r == spec_autonomous_input(),
{
    Input { up: true, ..Input::neutral() }
}


/// With a neutral intent and a zero time step the bookkeeping systems
/// are the identity: no cycling, no turret motion, and a reload that is
/// not yet due stays as it is.
pub proof fn lemma_idle_vehicle_logic(
    w: Weapon,
    ta: int,
    speed: int,
    ipp: Input,
    a: Ammo,
    now: int,
    full: u32,
)
    requires
        0 <= ta < ANG_TAU,
        0 <= speed,
        a.wf(),
        a matches Ammo::Reloading { started_at, ends_at } ==> now < ends_at,
    ensures
        spec_cycle_weapon(w, spec_neutral(), ipp) == w,
        spec_turret_after(ta, spec_neutral(), speed, 0) == ta,
        a.spec_reload_step(now, full) == a,
{
    assert(speed * 0 == 0) by (nonlinear_arith);
    fx::lemma_tdiv_zero(1000);
}

} // verus!
