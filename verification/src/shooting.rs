//! The shooting system: fire intent plus ammunition state plus
//! hardpoint geometry become spawned projectiles or an instantaneous
//! rail trace.  A successful fire attempt consumes ammunition
//! unconditionally, whether or not anything is hit.

use crate::ammo::Ammo;
use crate::angle::{spec_wrap_ang, wrap_ang, ANG_TAU};
use crate::arena::{ProjArena, ARENA_CAP};
use crate::config::{Config, Hardpoint, OFFSET_CAP, SPEED_CAP, TIME_CAP};
use crate::entities::{Player, ProjHandle, Projectile, RailBeam, Vehicle, PROJ_VEL_BOUND};
use crate::fx;
use crate::fx::FP;
use crate::projectiles::owners_ok;
use crate::rng::{draw_centered, draw_symmetric};
use crate::systems::spec_vehicle_input;
use crate::tilemap::TileMap;
use crate::vec2::{bounded, lemma_mul_abs_bound, lemma_rotate_bound, Vec2};
use crate::weapons::{weapon_index, Weapon};
use rand::rngs::SmallRng;
use vstd::array::ArrayAdditionalExecFns;
use vstd::pervasive::VecAdditionalExecFns;
use vstd::prelude::*;

verus! {

/// Where and at which angle the selected weapon's shot leaves the
/// vehicle: chassis mounts compose the fixed offset with the chassis
/// rotation, turret mounts additionally follow the turret.
pub open spec fn spec_shot_origin_angle(cfg: Config, v: Vehicle) -> (Vec2, int) {
    let hp = cfg.spec_hardpoint(v.cur_weapon);
    match hp.0 {
        Hardpoint::Chassis => {
            (v.body.pos.spec_add(hp.1.spec_rotate(v.body.angle as int)), v.body.angle as int)
        },
        Hardpoint::Turret => {
            let shot_angle = spec_wrap_ang(v.body.angle + v.turret_angle);
            let turret_off = cfg.spec_turret_offset(v.kind);
            (
                v.body.pos.spec_add(turret_off.spec_rotate(v.body.angle as int)).spec_add(
                    hp.1.spec_rotate(shot_angle),
                ),
                shot_angle,
            )
        },
    }
}

pub fn shot_origin_angle(cfg: &Config, v: &Vehicle) -> (r: (Vec2, i64))
    requires
        cfg.valid(),
        v.wf(*cfg),
    ensures
        (r.0, r.1 as int) == spec_shot_origin_angle(*cfg, *v),
        bounded(r.0, 1_010_000_000),
        0 <= r.1 < ANG_TAU,
{
    let hp = cfg.hardpoint(v.cur_weapon);
    match hp.0 {
        Hardpoint::Chassis => {
            proof {
                crate::angle::lemma_sin_range(v.body.angle as int);
                crate::angle::lemma_cos_range(v.body.angle as int);
                lemma_rotate_bound(
                    hp.1,
                    crate::angle::spec_sin(v.body.angle as int),
                    crate::angle::spec_cos(v.body.angle as int),
                    OFFSET_CAP as int,
                );
            }
            (v.body.pos.add(hp.1.rotate(v.body.angle)), v.body.angle)
        },
        Hardpoint::Turret => {
            let shot_angle = wrap_ang(v.body.angle + v.turret_angle);
            let turret_off = cfg.turret_offset(v.kind);
            proof {
                crate::angle::lemma_sin_range(v.body.angle as int);
                crate::angle::lemma_cos_range(v.body.angle as int);
                crate::angle::lemma_sin_range(shot_angle as int);
                crate::angle::lemma_cos_range(shot_angle as int);
                lemma_rotate_bound(
                    turret_off,
                    crate::angle::spec_sin(v.body.angle as int),
                    crate::angle::spec_cos(v.body.angle as int),
                    OFFSET_CAP as int,
                );
                lemma_rotate_bound(
                    hp.1,
                    crate::angle::spec_sin(shot_angle as int),
                    crate::angle::spec_cos(shot_angle as int),
                    OFFSET_CAP as int,
                );
            }
            (
                v.body.pos.add(turret_off.rotate(v.body.angle)).add(hp.1.rotate(shot_angle)),
                shot_angle,
            )
        },
    }
}

/// A shot's initial velocity: base speed plus scatter, rotated to the
/// shot angle, plus the inherited fraction of the vehicle velocity.
pub open spec fn spec_shot_vel(
    speed: int,
    spread_fwd: int,
    spread_side: int,
    angle: int,
    veh_vel: Vec2,
    factor: int,
) -> Vec2 {
    (Vec2 { x: (speed + spread_fwd) as i64, y: spread_side as i64 }).spec_rotate(
        angle,
    ).spec_add(veh_vel.spec_mul_div(factor, FP as int))
}

pub fn shot_vel(speed: i64, spread_fwd: i64, spread_side: i64, angle: i64, veh_vel: Vec2, factor: i64)
    -> (r: Vec2)
    requires
        0 <= speed <= SPEED_CAP,
        -SPEED_CAP <= spread_fwd <= SPEED_CAP,
        -SPEED_CAP <= spread_side <= SPEED_CAP,
        0 <= angle < ANG_TAU,
        bounded(veh_vel, SPEED_CAP as int),
        0 <= factor <= FP,
    ensures
        r == spec_shot_vel(
            speed as int,
            spread_fwd as int,
            spread_side as int,
            angle as int,
            veh_vel,
            factor as int,
        ),
        bounded(r, PROJ_VEL_BOUND as int),
{
    let base = Vec2 { x: speed + spread_fwd, y: spread_side };
    proof {
        crate::angle::lemma_sin_range(angle as int);
        crate::angle::lemma_cos_range(angle as int);
        lemma_rotate_bound(
            base,
            crate::angle::spec_sin(angle as int),
            crate::angle::spec_cos(angle as int),
            2 * SPEED_CAP as int,
        );
        lemma_mul_abs_bound(veh_vel.x as int, factor as int, SPEED_CAP as int, FP as int);
        lemma_mul_abs_bound(veh_vel.y as int, factor as int, SPEED_CAP as int, FP as int);
        fx::lemma_tdiv_bound(veh_vel.x * factor, FP as int, SPEED_CAP as int);
        fx::lemma_tdiv_bound(veh_vel.y * factor, FP as int, SPEED_CAP as int);
    }
    let rot = base.rotate(angle);
    let inherit = veh_vel.mul_div(factor, FP);
    rot.add(inherit)
}

/// Whether this player's fire intent releases a shot now.
pub open spec fn spec_can_shoot(cfg: Config, p: Player, now: int) -> bool {
    &&& p.vehicle matches Some(v) && !v.spec_destroyed() && spec_vehicle_input(p).fire
        && v.ammo[weapon_index(v.cur_weapon)].spec_can_fire(now)
}

/// One player's fire attempt.  A successful attempt consumes
/// ammunition exactly as the ammunition machine says, then spawns what
/// the selected weapon calls for; a failed attempt changes nothing.
/// Projectiles that already fly keep flying unchanged.
#[verifier::rlimit(100)]
pub fn fire_weapon(
    cfg: &Config,
    map: &TileMap,
    rng: &mut SmallRng,
    players: &mut Vec<Player>,
    i: usize,
    projectiles: &mut ProjArena,
    rail_beams: &mut Vec<RailBeam>,
    now: i64,
)
    requires
        cfg.valid(),
        map.dims_ok(),
        i < old(players)@.len(),
        forall|j: int| 0 <= j < old(players)@.len() ==> (#[trigger] old(players)@[j]).wf(*cfg),
        old(projectiles).wf(),
        owners_ok(*old(projectiles), old(players)@.len() as int),
        0 <= now <= TIME_CAP,
    ensures
        owners_ok(*final(projectiles), old(players)@.len() as int),
        final(players)@.len() == old(players)@.len(),
        forall|j: int| 0 <= j < old(players)@.len() && j != i ==> final(players)@[j] == old(players)@[j],
        forall|j: int| 0 <= j < final(players)@.len() ==> (#[trigger] final(players)@[j]).wf(*cfg),
        final(projectiles).wf(),
        final(projectiles).slots@.len() <= old(projectiles).slots@.len() + 100,
        forall|h: ProjHandle| old(projectiles).spec_get(h) is Some ==> final(projectiles).spec_get(h) == old(projectiles).spec_get(h),
        !spec_can_shoot(*cfg, old(players)@[i as int], now as int) ==> final(players)@[i as int]
            == old(players)@[i as int] && final(projectiles).slots@ == old(projectiles).slots@
            && final(rail_beams)@ == old(rail_beams)@ && *final(rng) == *old(rng),
        spec_can_shoot(*cfg, old(players)@[i as int], now as int) ==> ({
            let p = old(players)@[i as int];
            let v = p.vehicle->Some_0;
            let w = v.cur_weapon;
            let ws = cfg.spec_weapon_stats(w);
            let slot2 = v.ammo[weapon_index(w)].spec_after_fire(
                now as int,
                ws.refire_ms as int,
                ws.reload_ms as int,
            );
            let oa = spec_shot_origin_angle(*cfg, v);
            &&& (final(players)@[i as int].vehicle matches Some(v2) && v2.ammo@ == v.ammo@.update(
                weapon_index(w),
                slot2,
            ) && v2.hp == v.hp && v2.body == v.body && v2.cur_weapon == w && v2.turret_angle
                == v.turret_angle && v2.kind == v.kind)
            &&& final(players)@[i as int].input == p.input
            &&& final(players)@[i as int].input_prev == p.input_prev
            &&& (w != Weapon::Gm ==> final(players)@[i as int].guided_missile == p.guided_missile)
            &&& (w != Weapon::Mg && w != Weapon::Cb ==> *final(rng) == *old(rng))
            &&& (w == Weapon::Rail ==> final(projectiles).slots@ == old(projectiles).slots@ && ({
                let dir = (Vec2 { x: FP, y: 0 }).spec_rotate(oa.1);
                let end = oa.0.spec_add(dir.spec_mul_div(cfg.rail_range as int, FP as int));
                match map.spec_collision_between(oa.0, end) {
                    Some(hit) => final(rail_beams)@ == old(rail_beams)@.push(
                        RailBeam { begin: oa.0, end: hit, start_time: now },
                    ),
                    None => final(rail_beams)@ == old(rail_beams)@,
                }
            }))
            &&& (w != Weapon::Rail ==> final(rail_beams)@ == old(rail_beams)@)
            &&& ((w == Weapon::Rockets || w == Weapon::Hm || w == Weapon::Bfg) ==> (old(projectiles).slots@.len() < ARENA_CAP ==> exists|h: ProjHandle|
                final(projectiles).spec_get(h) == Some(
                    Projectile {
                        weapon: w,
                        pos: oa.0,
                        vel: spec_shot_vel(
                            ws.speed as int,
                            0,
                            0,
                            oa.1,
                            v.body.vel,
                            ws.vel_factor as int,
                        ),
                        owner: i,
                        angle: oa.1 as i64,
                        turn_rate: 0,
                        deadline: None,
                    },
                )))
            &&& (w == Weapon::Mg ==> (old(projectiles).slots@.len() < ARENA_CAP
                ==> exists|spread: int, h: ProjHandle|
                #![trigger final(projectiles).spec_get(h), spec_wrap_ang(oa.1 + spread)]
                -cfg.mg_spread_mrad <= spread <= cfg.mg_spread_mrad && final(projectiles).spec_get(h) == Some(
                        Projectile {
                            weapon: Weapon::Mg,
                            pos: oa.0,
                            vel: spec_shot_vel(
                                ws.speed as int,
                                0,
                                0,
                                spec_wrap_ang(oa.1 + spread),
                                v.body.vel,
                                ws.vel_factor as int,
                            ),
                            owner: i,
                            angle: oa.1 as i64,
                            turn_rate: 0,
                            deadline: None,
                        },
                    )))
            &&& (w == Weapon::Gm ==> (old(projectiles).slots@.len() < ARENA_CAP ==> (final(players)@[i as int].guided_missile matches Some(h) && final(projectiles).spec_get(h) == Some(
                Projectile {
                    weapon: Weapon::Gm,
                    pos: oa.0,
                    vel: spec_shot_vel(
                        ws.speed as int,
                        0,
                        0,
                        oa.1,
                        v.body.vel,
                        ws.vel_factor as int,
                    ),
                    owner: i,
                    angle: oa.1 as i64,
                    turn_rate: 0,
                    deadline: None,
                },
            ) && (p.guided_missile matches Some(oldh) ==> (old(projectiles).spec_get(oldh)
                is Some ==> oldh != h)))))
            &&& (w == Weapon::Cb ==> final(projectiles).slots@.len() <= old(projectiles).slots@.len() + cfg.cb_count && (old(projectiles).slots@.len() + cfg.cb_count
                <= ARENA_CAP ==> final(projectiles).spec_live_below(
                final(projectiles).slots@.len() as int,
            ) == old(projectiles).spec_live_below(old(projectiles).slots@.len() as int)
                + cfg.cb_count))
            &&& forall|h: ProjHandle| (#[trigger] final(projectiles).spec_get(h)) is Some && old(projectiles).spec_get(h) is None ==> ({
                let q = final(projectiles).spec_get(h)->Some_0;
                &&& q.weapon == w
                &&& q.owner == i
                &&& q.pos == oa.0
                &&& (w == Weapon::Cb ==> (q.deadline matches Some(d) && now + cfg.cb_time_ms
                    - cfg.cb_time_spread_ms <= d <= now + cfg.cb_time_ms + cfg.cb_time_spread_ms))
                &&& (w == Weapon::Cb ==> exists|sf: int, ss: int|
                    #![trigger spec_shot_vel(
                        ws.speed as int,
                        sf,
                        ss,
                        oa.1,
                        v.body.vel,
                        ws.vel_factor as int,
                    )]
                    -cfg.cb_spread_forward <= sf <= cfg.cb_spread_forward
                        && -cfg.cb_spread_sideways <= ss <= cfg.cb_spread_sideways && q.vel
                        == spec_shot_vel(
                        ws.speed as int,
                        sf,
                        ss,
                        oa.1,
                        v.body.vel,
                        ws.vel_factor as int,
                    ))
                &&& (w != Weapon::Cb ==> q.deadline is None)
            })
        }),
{
    let p = players[i];
    let v = match p.vehicle {
        Some(v) => v,
        None => { return ; },
    };
    if v.hp == 0 {
        return ;
    }
    let input = crate::systems::vehicle_input(&p);
    if !input.fire {
        return ;
    }
    let w = v.cur_weapon;
    let wi = w.index();
    let ws = cfg.weapon_stats(w);
    let attempt = v.ammo[wi].try_fire(now, ws.refire_ms, ws.reload_ms);
    if !attempt.1 {
        return ;
    }
    let mut ammo = v.ammo;
    ammo[wi] = attempt.0;
    let v2 = Vehicle { ammo, ..v };
    proof {
        assert forall|j: int| 0 <= j < 7 implies (#[trigger] v2.ammo[j]).wf() by {
            if j != wi {
                assert(v2.ammo[j] == v.ammo[j]);
            }
        }
    }
    let mut p2 = Player { vehicle: Some(v2), ..p };
    let oa = shot_origin_angle(cfg, &v);
    let origin = oa.0;
    let shot_angle = oa.1;
    match w {
        Weapon::Mg => {
            let spread = draw_centered(rng, cfg.mg_spread_mrad, true);
            let vel = shot_vel(
                ws.speed,
                0,
                0,
                wrap_ang(shot_angle + spread),
                v.body.vel,
                ws.vel_factor,
            );
            let proj = Projectile {
                weapon: Weapon::Mg,
                pos: origin,
                vel,
                owner: i,
                angle: shot_angle,
                turn_rate: 0,
                deadline: None,
            };
            let _inserted = projectiles.try_insert(proj);
            proof {
                assert forall|h2: ProjHandle| (#[trigger] projectiles.spec_get(h2)) is Some
                    implies projectiles.spec_get(h2)->Some_0.owner < players@.len() by {
                    if old(projectiles).spec_get(h2) is Some {
                        assert(old(projectiles).spec_get(h2)->Some_0.owner < players@.len());
                    }
                }
            }
        },
        Weapon::Rail => {
            let dir = Vec2 { x: FP, y: 0 }.rotate(shot_angle);
            proof {
                crate::angle::lemma_sin_range(shot_angle as int);
                crate::angle::lemma_cos_range(shot_angle as int);
                lemma_rotate_bound(
                    Vec2 { x: FP, y: 0 },
                    crate::angle::spec_sin(shot_angle as int),
                    crate::angle::spec_cos(shot_angle as int),
                    FP as int,
                );
                lemma_mul_abs_bound(dir.x as int, cfg.rail_range as int, 2 * FP as int, 200_000_000);
                lemma_mul_abs_bound(dir.y as int, cfg.rail_range as int, 2 * FP as int, 200_000_000);
                fx::lemma_tdiv_bound(dir.x * cfg.rail_range, FP as int, 400_000_000);
                fx::lemma_tdiv_bound(dir.y * cfg.rail_range, FP as int, 400_000_000);
            }
            let reach = Vec2 { x: (dir.x * cfg.rail_range) / FP, y: (dir.y * cfg.rail_range) / FP };
            let end = origin.add(reach);
            let hit = map.collision_between(origin, end);
            match hit {
                Some(hit_pos) => {
                    rail_beams.push(RailBeam { begin: origin, end: hit_pos, start_time: now });
                },
                None => {},
            }
        },
        Weapon::Cb => {
            let mut k: u32 = 0;
            let ghost projs0 = *projectiles;
            while k < cfg.cb_count
                invariant
                    cfg.valid(),
                    projectiles.wf(),
                    owners_ok(*projectiles, players@.len() as int),
                    players@ == old(players)@,
                    i < players@.len(),
                    0 <= k <= cfg.cb_count,
                    projectiles.slots@.len() <= projs0.slots@.len() + k,
                    projs0.slots@.len() + cfg.cb_count <= ARENA_CAP ==> projectiles
                        .spec_live_below(projectiles.slots@.len() as int) == projs0
                        .spec_live_below(projs0.slots@.len() as int) + k,
                    forall|h: ProjHandle| projs0.spec_get(h) is Some ==> projectiles.spec_get(h)
                        == projs0.spec_get(h),
                    projs0 == *old(projectiles),
                    forall|h: ProjHandle| (#[trigger] projectiles.spec_get(h)) is Some && projs0
                        .spec_get(h) is None ==> ({
                        let q = projectiles.spec_get(h)->Some_0;
                        &&& q.weapon == Weapon::Cb
                        &&& q.owner == i
                        &&& q.pos == origin
                        &&& (q.deadline matches Some(d) && now + cfg.cb_time_ms
                            - cfg.cb_time_spread_ms <= d <= now + cfg.cb_time_ms
                            + cfg.cb_time_spread_ms)
                        &&& exists|sf: int, ss: int|
                            #![trigger spec_shot_vel(
                                ws.speed as int,
                                sf,
                                ss,
                                shot_angle as int,
                                v.body.vel,
                                ws.vel_factor as int,
                            )]
                            -cfg.cb_spread_forward <= sf <= cfg.cb_spread_forward
                                && -cfg.cb_spread_sideways <= ss <= cfg.cb_spread_sideways
                                && q.vel == spec_shot_vel(
                                ws.speed as int,
                                sf,
                                ss,
                                shot_angle as int,
                                v.body.vel,
                                ws.vel_factor as int,
                            )
                    }),
                    0 <= cfg.cb_time_ms,
                    0 <= cfg.cb_time_spread_ms <= cfg.cb_time_ms <= 100_000_000,
                    0 <= now <= TIME_CAP,
                    0 <= shot_angle < ANG_TAU,
                    0 <= ws.speed <= SPEED_CAP,
                    0 <= ws.vel_factor <= FP,
                    bounded(v.body.vel, SPEED_CAP as int),
                    bounded(origin, 1_010_000_000),
                decreases cfg.cb_count - k,
            {
                let sf = draw_centered(rng, cfg.cb_spread_forward, cfg.cb_gaussian);
                let ss = draw_centered(rng, cfg.cb_spread_sideways, cfg.cb_gaussian);
                let vel = shot_vel(ws.speed, sf, ss, shot_angle, v.body.vel, ws.vel_factor);
                let jitter = draw_symmetric(rng, cfg.cb_time_spread_ms);
                let deadline = now + cfg.cb_time_ms + jitter;
                let proj = Projectile {
                    weapon: Weapon::Cb,
                    pos: origin,
                    vel,
                    owner: i,
                    angle: shot_angle,
                    turn_rate: 0,
                    deadline: Some(deadline),
                };
                let _inserted = projectiles.try_insert(proj);
                proof {
                    assert forall|h2: ProjHandle| (#[trigger] projectiles.spec_get(h2)) is Some
                        implies projectiles.spec_get(h2)->Some_0.owner < players@.len() by {}
                }
                k = k + 1;
            }
        },
        Weapon::Rockets | Weapon::Hm | Weapon::Bfg => {
            let vel = shot_vel(ws.speed, 0, 0, shot_angle, v.body.vel, ws.vel_factor);
            let proj = Projectile {
                weapon: w,
                pos: origin,
                vel,
                owner: i,
                angle: shot_angle,
                turn_rate: 0,
                deadline: None,
            };
            let _inserted = projectiles.try_insert(proj);
            proof {
                assert forall|h2: ProjHandle| (#[trigger] projectiles.spec_get(h2)) is Some
                    implies projectiles.spec_get(h2)->Some_0.owner < players@.len() by {
                    if old(projectiles).spec_get(h2) is Some {
                        assert(old(projectiles).spec_get(h2)->Some_0.owner < players@.len());
                    }
                }
            }
        },
        Weapon::Gm => {
            let vel = shot_vel(ws.speed, 0, 0, shot_angle, v.body.vel, ws.vel_factor);
            let proj = Projectile {
                weapon: Weapon::Gm,
                pos: origin,
                vel,
                owner: i,
                angle: shot_angle,
                turn_rate: 0,
                deadline: None,
            };
            let h = projectiles.try_insert(proj);
            proof {
                assert forall|h2: ProjHandle| (#[trigger] projectiles.spec_get(h2)) is Some
                    implies projectiles.spec_get(h2)->Some_0.owner < players@.len() by {
                    if old(projectiles).spec_get(h2) is Some {
                        assert(old(projectiles).spec_get(h2)->Some_0.owner < players@.len());
                    }
                }
            }
            match h {
                Some(h) => {
                    p2 = Player { guided_missile: Some(h), ..p2 };
                },
                None => {},
            }
        },
    }
    players.set(i, p2);
}


/// How one fire attempt changes its own player: nothing when the
/// attempt is rejected; otherwise exactly the ammunition transition,
/// with every other vehicle field kept (only a guided-missile shot may
/// move the missile link).
pub open spec fn rel_shot_player(cfg: Config, p0: Player, p1: Player, now: int) -> bool {
    if !spec_can_shoot(cfg, p0, now) {
        p1 == p0
    } else {
        let v = p0.vehicle->Some_0;
        let w = v.cur_weapon;
        let ws = cfg.spec_weapon_stats(w);
        let slot2 = v.ammo[weapon_index(w)].spec_after_fire(
            now,
            ws.refire_ms as int,
            ws.reload_ms as int,
        );
        &&& p1.vehicle matches Some(v2) && v2.ammo@ == v.ammo@.update(weapon_index(w), slot2)
            && v2.hp == v.hp && v2.body == v.body && v2.cur_weapon == w && v2.turret_angle
            == v.turret_angle && v2.kind == v.kind
        &&& p1.input == p0.input
        &&& p1.input_prev == p0.input_prev
        &&& (w != Weapon::Gm ==> p1.guided_missile == p0.guided_missile)
    }
}

/// Every projectile a shooting round adds belongs to a player who
/// could shoot, carries that player's selected weapon and leaves that
/// player's muzzle.
pub open spec fn spec_new_shot_ok(cfg: Config, players: Seq<Player>, now: int, q: Projectile)
    -> bool {
    &&& q.owner < players.len()
    &&& spec_can_shoot(cfg, players[q.owner as int], now)
    &&& ({
        let v = players[q.owner as int].vehicle->Some_0;
        let oa = spec_shot_origin_angle(cfg, v);
        q.weapon == v.cur_weapon && q.pos == oa.0
    })
}

} // verus!
