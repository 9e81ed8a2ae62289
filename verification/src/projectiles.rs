//! The projectile subsystem: per-kind movement, wall and vehicle
//! collision, the BFG's sustained beam, impact resolution and timeouts.
//!
//! Damage applied earlier in a pass is visible to the rest of the same
//! pass: a vehicle destroyed mid-pass is skipped by every later check of
//! that pass.  Spawned explosions only ever append to the explosion
//! list.

use crate::arena::ProjArena;
use crate::config::{Config, DT_CAP, POS_MAX, TIME_CAP};
use crate::entities::{Explosion, Player, ProjHandle, Projectile, Vehicle, PROJ_POS_BOUND,
    PROJ_VEL_BOUND};
use crate::fx;
use crate::input::Input;
use crate::fx::{tdiv, FP};
use crate::movement::missile_steer;
use crate::systems::{damage_vehicle, spec_hp_after};
use crate::tilemap::TileMap;
use crate::vec2::{bounded, lemma_mul_abs_bound, Vec2};
use crate::weapons::Weapon;
use vstd::pervasive::VecAdditionalExecFns;
use vstd::prelude::*;

verus! {

/// How a pass may change one player: inputs untouched, the vehicle at
/// most damaged (or destroyed) in place, the missile link at most
/// cleared.
pub open spec fn spec_damaged_only(p0: Player, p1: Player) -> bool {
    &&& p1.input == p0.input
    &&& p1.input_prev == p0.input_prev
    &&& (p1.guided_missile == p0.guided_missile || p1.guided_missile is None)
    &&& match (p0.vehicle, p1.vehicle) {
        (Some(v0), Some(v1)) => v1 == (Vehicle { hp: v1.hp, ..v0 }) && 0 <= v1.hp <= v0.hp,
        (None, None) => true,
        _ => false,
    }
}

pub proof fn lemma_damaged_only_trans(p0: Player, p1: Player, p2: Player)
    requires
        spec_damaged_only(p0, p1),
        spec_damaged_only(p1, p2),
    ensures
        spec_damaged_only(p0, p2),
{
}

/// The position a projectile moves to in one tick, saturating at the
/// world bound.
pub open spec fn spec_proj_new_pos(pos: Vec2, vel: Vec2, dt: int) -> Vec2 {
    Vec2 {
        x: fx::spec_clamp(pos.x + tdiv(vel.x * dt, 1000), -PROJ_POS_BOUND as int, PROJ_POS_BOUND as int) as i64,
        y: fx::spec_clamp(pos.y + tdiv(vel.y * dt, 1000), -PROJ_POS_BOUND as int, PROJ_POS_BOUND as int) as i64,
    }
}

fn proj_new_pos(pos: Vec2, vel: Vec2, dt: i64) -> (r: Vec2)
    requires
        bounded(pos, PROJ_POS_BOUND as int),
        bounded(vel, PROJ_VEL_BOUND as int),
        0 <= dt <= DT_CAP,
    ensures
        r == spec_proj_new_pos(pos, vel, dt as int),
        bounded(r, PROJ_POS_BOUND as int),
{
    proof {
        lemma_mul_abs_bound(vel.x as int, dt as int, PROJ_VEL_BOUND as int, DT_CAP as int);
        lemma_mul_abs_bound(vel.y as int, dt as int, PROJ_VEL_BOUND as int, DT_CAP as int);
        fx::lemma_tdiv_bound(vel.x * dt, 1000, PROJ_VEL_BOUND as int);
        fx::lemma_tdiv_bound(vel.y * dt, 1000, PROJ_VEL_BOUND as int);
    }
    let x = fx::clamp64(pos.x + (vel.x * dt) / 1000, -PROJ_POS_BOUND, PROJ_POS_BOUND);
    let y = fx::clamp64(pos.y + (vel.y * dt) / 1000, -PROJ_POS_BOUND, PROJ_POS_BOUND);
    Vec2 { x, y }
}

/// Resolve one projectile's impact at `hit_pos`: spawn the weapon's
/// explosion if it has one, clear the owner's guided-missile link if
/// this was the missile the owner guides, and remove the projectile.
pub fn projectile_impact(
    cfg: &Config,
    players: &mut Vec<Player>,
    projectiles: &mut ProjArena,
    explosions: &mut Vec<Explosion>,
    h: ProjHandle,
    hit_pos: Vec2,
    now: i64,
)
    requires
        cfg.valid(),
        old(projectiles).wf(),
        old(projectiles).spec_get(h) matches Some(p) && p.owner < old(players)@.len(),
        forall|j: int| 0 <= j < old(players)@.len() ==> (#[trigger] old(players)@[j]).wf(*cfg),
        0 <= now <= TIME_CAP,
    ensures
        final(players)@.len() == old(players)@.len(),
        forall|j: int| 0 <= j < old(players)@.len() ==> (#[trigger] final(players)@[j]).wf(*cfg)
            && spec_damaged_only(old(players)@[j], final(players)@[j]),
        final(projectiles).wf(),
        final(projectiles).slots@.len() == old(projectiles).slots@.len(),
        final(projectiles).spec_get(h) is None,
        forall|h2: ProjHandle| h2 != h ==> final(projectiles).spec_get(h2) == old(projectiles).spec_get(h2),
        ({
            let p = old(projectiles).spec_get(h)->Some_0;
            let ws = cfg.spec_weapon_stats(p.weapon);
            &&& (ws.explosion matches Some(s) ==> final(explosions)@ == old(explosions)@.push(
                Explosion { pos: hit_pos, scale: s, start_time: now, bfg: p.weapon == Weapon::Bfg },
            ))
            &&& (ws.explosion is None ==> final(explosions)@ == old(explosions)@)
            &&& forall|j: int| 0 <= j < old(players)@.len() ==> (#[trigger] final(players)@[j]).vehicle == old(players)@[j].vehicle
            &&& final(players)@ == spec_unlink(old(players)@, p.owner as int, h)
        }),
{
    let p = match projectiles.get(h) {
        Some(p) => p,
        None => {
            proof {
                assert(false);
            }
            return ;
        },
    };
    let ws = cfg.weapon_stats(p.weapon);
    match ws.explosion {
        Some(s) => {
            explosions.push(
                Explosion { pos: hit_pos, scale: s, start_time: now, bfg: p.weapon == Weapon::Bfg },
            );
        },
        None => {},
    }
    let owner_player = players[p.owner];
    match owner_player.guided_missile {
        Some(oh) => {
            if oh.idx == h.idx && oh.gen == h.gen {
                players.set(p.owner, Player { guided_missile: None, ..owner_player });
            }
        },
        None => {},
    }
    let _removed = projectiles.remove(h);
}

/// The intent a flying missile obeys: the driving slice of its owner's
/// intent when that owner guides exactly this missile and still has a
/// live vehicle, and the autonomous thrust-only intent otherwise.
pub open spec fn spec_missile_input(players: Seq<Player>, h: ProjHandle, p: Projectile) -> Input {
    if p.weapon == Weapon::Gm && p.owner < players.len()
        && players[p.owner as int].guided_missile == Some(h) && (players[
        p.owner as int].vehicle matches Some(v) && v.hp > 0) {
        players[p.owner as int].input.spec_missile_while_guiding()
    } else {
        crate::systems::spec_autonomous_input()
    }
}

/// One steering tick for every guided and homing missile in flight:
/// each follows the movement model under [`spec_missile_input`], with
/// its turn rate first clamped into the missile model's range.  Only
/// velocity, facing and turn rate change; other projectiles are
/// untouched.
pub fn missiles_steer_pass(
    cfg: &Config,
    players: &Vec<Player>,
    projectiles: &mut ProjArena,
    dt: i64,
)
    requires
        cfg.valid(),
        old(projectiles).wf(),
        0 <= dt <= DT_CAP,
    ensures
        final(projectiles).wf(),
        final(projectiles).slots@.len() == old(projectiles).slots@.len(),
        forall|h: ProjHandle| (#[trigger] final(projectiles).spec_get(h)) is Some <==> old(projectiles).spec_get(h) is Some,
        forall|h: ProjHandle| old(projectiles).spec_get(h) matches Some(p1) ==> (#[trigger] final(projectiles).spec_get(h)) matches Some(p2) && p2.weapon == p1.weapon && p2.pos == p1.pos && p2.owner
            == p1.owner && p2.deadline == p1.deadline,
        forall|h: ProjHandle| old(projectiles).spec_get(h) matches Some(p1) && p1.weapon
            != Weapon::Gm && p1.weapon != Weapon::Hm ==> (#[trigger] final(projectiles).spec_get(
            h,
        )) == old(projectiles).spec_get(h),
        rel_steer_pass(*cfg, players@, *old(projectiles), *final(projectiles), dt as int),
        forall|h: ProjHandle| old(projectiles).spec_get(h) matches Some(p1) ==> ((p1.weapon
            == Weapon::Gm || p1.weapon == Weapon::Hm) ==> (#[trigger] final(projectiles).spec_get(
            h,
        )) == ({
            let st = crate::movement::spec_missile_steer(
                cfg.missile_stats,
                p1.vel,
                p1.angle as int,
                fx::spec_clamp(
                    p1.turn_rate as int,
                    -cfg.missile_stats.turn_rate_max as int,
                    cfg.missile_stats.turn_rate_max as int,
                ),
                spec_missile_input(players@, h, p1),
                dt as int,
            );
            Some(
                Projectile { vel: st.0, angle: st.1 as i64, turn_rate: st.2 as i64, ..p1 },
            )
        })),
{
    let n = projectiles.slot_count();
    let mut idx: usize = 0;
    let ghost projs0 = *old(projectiles);
    while idx < n
        invariant
            cfg.valid(),
            0 <= idx <= n,
            0 <= dt <= DT_CAP,
            projectiles.wf(),
            n == projectiles.slots@.len(),
            n == projs0.slots@.len(),
            forall|h: ProjHandle| (#[trigger] projectiles.spec_get(h)) is Some <==> projs0
                .spec_get(h) is Some,
            forall|h: ProjHandle| projs0.spec_get(h) matches Some(p1)
                ==> (#[trigger] projectiles.spec_get(h)) matches Some(p2) && p2.weapon == p1.weapon
                && p2.pos == p1.pos && p2.owner == p1.owner && p2.deadline == p1.deadline,
            forall|h: ProjHandle| projs0.spec_get(h) matches Some(p1) && p1.weapon != Weapon::Gm
                && p1.weapon != Weapon::Hm ==> (#[trigger] projectiles.spec_get(h)) == projs0
                .spec_get(h),
            projs0 == *old(projectiles),
            forall|h: ProjHandle| projs0.spec_get(h) is Some && h.idx >= idx ==> (
            #[trigger] projectiles.spec_get(h)) == projs0.spec_get(h),
            forall|h: ProjHandle| projs0.spec_get(h) matches Some(p1) ==> ((p1.weapon
                == Weapon::Gm || p1.weapon == Weapon::Hm) && h.idx < idx ==> (
            #[trigger] projectiles.spec_get(h)) == ({
                let st = crate::movement::spec_missile_steer(
                    cfg.missile_stats,
                    p1.vel,
                    p1.angle as int,
                    fx::spec_clamp(
                        p1.turn_rate as int,
                        -cfg.missile_stats.turn_rate_max as int,
                        cfg.missile_stats.turn_rate_max as int,
                    ),
                    spec_missile_input(players@, h, p1),
                    dt as int,
                );
                Some(
                    Projectile { vel: st.0, angle: st.1 as i64, turn_rate: st.2 as i64, ..p1 },
                )
            })),
        decreases n - idx,
    {
        let item = projectiles.get_at(idx);
        match item {
            Some(p) => {
                if matches!(p.weapon, Weapon::Gm | Weapon::Hm) {
                    let h = projectiles.handle_at(idx);
                    let guided = p.weapon == Weapon::Gm && p.owner < players.len() && ({
                        let owner = players[p.owner];
                        let linked = match owner.guided_missile {
                            Some(oh) => oh.idx == h.idx && oh.gen == h.gen,
                            None => false,
                        };
                        let alive = match owner.vehicle {
                            Some(v) => v.hp > 0,
                            None => false,
                        };
                        linked && alive
                    });
                    let input = if guided {
                        players[p.owner].input.missile_while_guiding()
                    } else {
                        crate::systems::autonomous_input()
                    };
                    let stats = cfg.missile_stats;
                    let tr = fx::clamp64(p.turn_rate, -stats.turn_rate_max, stats.turn_rate_max);
                    let steered = missile_steer(&stats, p.vel, p.angle, tr, input, dt);
                    let p2 = Projectile {
                        vel: steered.0,
                        angle: steered.1,
                        turn_rate: steered.2,
                        ..p
                    };
                    projectiles.set(h, p2);
                }
            },
            None => {},
        }
        idx = idx + 1;
    }
}

/// A player after taking `dmg` milli-hit-points, mirroring
/// `damage_vehicle`: subtraction clamped at zero, a lethal hit clears
/// the guided-missile link.
pub open spec fn spec_damage_player(p: Player, dmg: int) -> Player {
    let v = p.vehicle->Some_0;
    let hp2 = spec_hp_after(v.hp as int, dmg);
    if hp2 == 0 {
        Player { vehicle: Some(Vehicle { hp: 0, ..v }), guided_missile: None, ..p }
    } else {
        Player { vehicle: Some(Vehicle { hp: hp2 as i64, ..v }), ..p }
    }
}

/// What `damage_vehicle` appends: one full-scale explosion at the
/// vehicle position exactly when the hit is lethal.
pub open spec fn spec_damage_explosions(p: Player, now: int, dmg: int) -> Seq<Explosion> {
    let v = p.vehicle->Some_0;
    if spec_hp_after(v.hp as int, dmg) == 0 {
        seq![Explosion { pos: v.body.pos, scale: FP, start_time: now as i64, bfg: false }]
    } else {
        Seq::empty()
    }
}

/// What an impact appends: the weapon's explosion exactly when the
/// weapon has a scale.
pub open spec fn spec_impact_explosions(cfg: Config, w: Weapon, hit_pos: Vec2, now: int) -> Seq<
    Explosion,
> {
    match cfg.spec_weapon_stats(w).explosion {
        Some(s) => seq![
            Explosion { pos: hit_pos, scale: s, start_time: now as i64, bfg: w == Weapon::Bfg },
        ],
        None => Seq::empty(),
    }
}

/// The players after an impact of the missile `h` owned by `owner`:
/// the owner's link is cleared exactly when it designates `h`.
pub open spec fn spec_unlink(players: Seq<Player>, owner: int, h: ProjHandle) -> Seq<Player> {
    if 0 <= owner < players.len() && players[owner].guided_missile == Some(h) {
        players.update(owner, Player { guided_missile: None, ..players[owner] })
    } else {
        players
    }
}

/// Whether a vehicle stands within the direct hit distance of `pos`.
pub open spec fn spec_within_hit(cfg: Config, pos: Vec2, v: Vehicle) -> bool {
    let dx = vstd::math::abs(pos.x - v.body.pos.x);
    let dy = vstd::math::abs(pos.y - v.body.pos.y);
    dx <= cfg.hit_dist && dy <= cfg.hit_dist && dx * dx + dy * dy <= cfg.hit_dist * cfg.hit_dist
}

/// Whether player `j` takes the direct hit of a projectile at `pos`
/// owned by `owner`: a live enemy vehicle within the hit distance.
pub open spec fn spec_hittable(cfg: Config, players: Seq<Player>, owner: int, pos: Vec2, j: int)
    -> bool {
    &&& j != owner
    &&& players[j].vehicle matches Some(v) && v.hp > 0 && spec_within_hit(cfg, pos, v)
}

/// Whether player `j` is burnt by a BFG at `pos`: a live enemy vehicle
/// outside the hit distance but inside the beam range, with no wall on
/// the line of sight.
pub open spec fn spec_bfg_burnable(
    cfg: Config,
    map: TileMap,
    players: Seq<Player>,
    owner: int,
    pos: Vec2,
    j: int,
) -> bool {
    &&& j != owner
    &&& players[j].vehicle matches Some(v) && v.hp > 0 && !spec_within_hit(cfg, pos, v) && ({
        let dx = vstd::math::abs(pos.x - v.body.pos.x);
        let dy = vstd::math::abs(pos.y - v.body.pos.y);
        dx <= cfg.bfg_beam_range && dy <= cfg.bfg_beam_range && dx * dx + dy * dy
            <= cfg.bfg_beam_range * cfg.bfg_beam_range
    }) && map.spec_collision_between(pos, players[j].vehicle->Some_0.body.pos) is None
}

/// The whole vehicle half of one projectile's tick, scanning players
/// from index `j` upward: burn every BFG-burnable vehicle on the way,
/// stop at the first hittable vehicle — damage it, resolve the impact
/// and consume the projectile — and otherwise leave everything alone.
/// Returns the players, explosions and beam list after the scan, and
/// whether the projectile was consumed.
pub open spec fn spec_vehicle_scan(
    cfg: Config,
    map: TileMap,
    players: Seq<Player>,
    expl: Seq<Explosion>,
    beams: Seq<(Vec2, Vec2)>,
    h: ProjHandle,
    w: Weapon,
    owner: int,
    pos: Vec2,
    now: int,
    dt: int,
    j: int,
) -> (Seq<Player>, Seq<Explosion>, Seq<(Vec2, Vec2)>, bool)
    decreases players.len() - j,
{
    if j < 0 || j >= players.len() {
        (players, expl, beams, false)
    } else if spec_hittable(cfg, players, owner, pos, j) {
        let dmg = cfg.spec_weapon_stats(w).damage as int;
        let players1 = players.update(j, spec_damage_player(players[j], dmg));
        let expl1 = expl + spec_damage_explosions(players[j], now, dmg);
        (
            spec_unlink(players1, owner, h),
            expl1 + spec_impact_explosions(cfg, w, pos, now),
            beams,
            true,
        )
    } else if w == Weapon::Bfg && spec_bfg_burnable(cfg, map, players, owner, pos, j) {
        let dmg = tdiv(cfg.bfg_beam_dps * dt, 1000);
        let players1 = players.update(j, spec_damage_player(players[j], dmg));
        let expl1 = expl + spec_damage_explosions(players[j], now, dmg);
        let beams1 = beams.push((pos, players[j].vehicle->Some_0.body.pos));
        spec_vehicle_scan(cfg, map, players1, expl1, beams1, h, w, owner, pos, now, dt, j + 1)
    } else {
        spec_vehicle_scan(cfg, map, players, expl, beams, h, w, owner, pos, now, dt, j + 1)
    }
}

/// The handle that designates slot `i`'s occupant.
pub open spec fn spec_slot_handle(a: ProjArena, i: int) -> ProjHandle {
    ProjHandle { idx: i as usize, gen: a.slots@[i].gen }
}

/// What processing slot `i` of the movement-and-collision pass does to
/// the whole state: nothing for a vacant slot; an unconditional move
/// for a cluster bomb; an impact (explosion, unlink, removal) at the
/// first sampled wall hit; and otherwise a committed move followed by
/// [`spec_vehicle_scan`].
pub open spec fn rel_proj_step(
    cfg: Config,
    map: TileMap,
    now: int,
    dt: int,
    i: int,
    players0: Seq<Player>,
    projs0: ProjArena,
    expl0: Seq<Explosion>,
    beams0: Seq<(Vec2, Vec2)>,
    players1: Seq<Player>,
    projs1: ProjArena,
    expl1: Seq<Explosion>,
    beams1: Seq<(Vec2, Vec2)>,
) -> bool {
    let h = spec_slot_handle(projs0, i);
    match projs0.spec_at(i) {
        None => players1 == players0 && projs1 == projs0 && expl1 == expl0 && beams1 == beams0,
        Some(p) => {
            let cand = spec_proj_new_pos(p.pos, p.vel, dt);
            if p.weapon == Weapon::Cb {
                &&& players1 == players0
                &&& expl1 == expl0
                &&& beams1 == beams0
                &&& projs1.spec_get(h) == Some(Projectile { pos: cand, ..p })
                &&& projs1.slots@.len() == projs0.slots@.len()
                &&& forall|h2: ProjHandle| h2 != h ==> projs1.spec_get(h2) == projs0.spec_get(h2)
            } else {
                match map.spec_collision_between(p.pos, cand) {
                    Some(hit) => {
                        &&& players1 == spec_unlink(players0, p.owner as int, h)
                        &&& expl1 == expl0 + spec_impact_explosions(cfg, p.weapon, hit, now)
                        &&& beams1 == beams0
                        &&& projs1.spec_get(h) is None
                        &&& projs1.slots@.len() == projs0.slots@.len()
                        &&& forall|h2: ProjHandle| h2 != h ==> projs1.spec_get(h2) == projs0
                            .spec_get(h2)
                    },
                    None => {
                        let r = spec_vehicle_scan(
                            cfg,
                            map,
                            players0,
                            expl0,
                            beams0,
                            h,
                            p.weapon,
                            p.owner as int,
                            cand,
                            now,
                            dt,
                            0,
                        );
                        &&& players1 == r.0
                        &&& expl1 == r.1
                        &&& beams1 == r.2
                        &&& (r.3 ==> projs1.spec_get(h) is None)
                        &&& (!r.3 ==> projs1.spec_get(h) == Some(Projectile { pos: cand, ..p }))
                        &&& projs1.slots@.len() == projs0.slots@.len()
                        &&& forall|h2: ProjHandle| h2 != h ==> projs1.spec_get(h2) == projs0
                            .spec_get(h2)
                    },
                }
            }
        },
    }
}

/// The movement-and-collision pass has processed slots `0..i`, in
/// order: there is a chain of intermediate states linked by
/// [`rel_proj_step`].
pub open spec fn rel_proj_pass_upto(
    cfg: Config,
    map: TileMap,
    now: int,
    dt: int,
    i: int,
    players0: Seq<Player>,
    projs0: ProjArena,
    expl0: Seq<Explosion>,
    beams0: Seq<(Vec2, Vec2)>,
    players1: Seq<Player>,
    projs1: ProjArena,
    expl1: Seq<Explosion>,
    beams1: Seq<(Vec2, Vec2)>,
) -> bool
    decreases i,
{
    if i <= 0 {
        players1 == players0 && projs1 == projs0 && expl1 == expl0 && beams1 == beams0
    } else {
        exists|pm: Seq<Player>, am: ProjArena, em: Seq<Explosion>, bm: Seq<(Vec2, Vec2)>|
            #![trigger rel_proj_step(
                cfg,
                map,
                now,
                dt,
                i - 1,
                pm,
                am,
                em,
                bm,
                players1,
                projs1,
                expl1,
                beams1,
            )]
            rel_proj_pass_upto(cfg, map, now, dt, i - 1, players0, projs0, expl0, beams0, pm, am, em, bm)
                && rel_proj_step(
                cfg,
                map,
                now,
                dt,
                i - 1,
                pm,
                am,
                em,
                bm,
                players1,
                projs1,
                expl1,
                beams1,
            )
    }
}

/// What processing slot `i` of the timeout pass does: a projectile
/// whose deadline has elapsed is force-impacted at its own position
/// (explosion, unlink, removal); everything else stays put.
pub open spec fn rel_timeout_step(
    cfg: Config,
    now: int,
    i: int,
    players0: Seq<Player>,
    projs0: ProjArena,
    expl0: Seq<Explosion>,
    players1: Seq<Player>,
    projs1: ProjArena,
    expl1: Seq<Explosion>,
) -> bool {
    let h = spec_slot_handle(projs0, i);
    match projs0.spec_at(i) {
        Some(p) => {
            if p.deadline matches Some(d) && now > d {
                &&& players1 == spec_unlink(players0, p.owner as int, h)
                &&& expl1 == expl0 + spec_impact_explosions(cfg, p.weapon, p.pos, now)
                &&& projs1.spec_get(h) is None
                &&& projs1.slots@.len() == projs0.slots@.len()
                &&& forall|h2: ProjHandle| h2 != h ==> projs1.spec_get(h2) == projs0.spec_get(h2)
            } else {
                players1 == players0 && projs1 == projs0 && expl1 == expl0
            }
        },
        None => players1 == players0 && projs1 == projs0 && expl1 == expl0,
    }
}

/// The timeout pass has processed slots `0..i`, in order.
pub open spec fn rel_timeout_pass_upto(
    cfg: Config,
    now: int,
    i: int,
    players0: Seq<Player>,
    projs0: ProjArena,
    expl0: Seq<Explosion>,
    players1: Seq<Player>,
    projs1: ProjArena,
    expl1: Seq<Explosion>,
) -> bool
    decreases i,
{
    if i <= 0 {
        players1 == players0 && projs1 == projs0 && expl1 == expl0
    } else {
        exists|pm: Seq<Player>, am: ProjArena, em: Seq<Explosion>|
            #![trigger rel_timeout_step(cfg, now, i - 1, pm, am, em, players1, projs1, expl1)]
            rel_timeout_pass_upto(cfg, now, i - 1, players0, projs0, expl0, pm, am, em)
                && rel_timeout_step(cfg, now, i - 1, pm, am, em, players1, projs1, expl1)
    }
}

/// Extending a processed-prefix chain by one step.
proof fn lemma_proj_chain_extend(
    cfg: Config,
    map: TileMap,
    now: int,
    dt: int,
    i: int,
    players0: Seq<Player>,
    projs0: ProjArena,
    expl0: Seq<Explosion>,
    beams0: Seq<(Vec2, Vec2)>,
    pm: Seq<Player>,
    am: ProjArena,
    em: Seq<Explosion>,
    bm: Seq<(Vec2, Vec2)>,
    players1: Seq<Player>,
    projs1: ProjArena,
    expl1: Seq<Explosion>,
    beams1: Seq<(Vec2, Vec2)>,
)
    requires
        i >= 0,
        rel_proj_pass_upto(cfg, map, now, dt, i, players0, projs0, expl0, beams0, pm, am, em, bm),
        rel_proj_step(cfg, map, now, dt, i, pm, am, em, bm, players1, projs1, expl1, beams1),
    ensures
        rel_proj_pass_upto(
            cfg,
            map,
            now,
            dt,
            i + 1,
            players0,
            projs0,
            expl0,
            beams0,
            players1,
            projs1,
            expl1,
            beams1,
        ),
{
    assert(rel_proj_step(
        cfg,
        map,
        now,
        dt,
        (i + 1) - 1,
        pm,
        am,
        em,
        bm,
        players1,
        projs1,
        expl1,
        beams1,
    ));
}

/// Extending a processed-prefix timeout chain by one step.
proof fn lemma_timeout_chain_extend(
    cfg: Config,
    now: int,
    i: int,
    players0: Seq<Player>,
    projs0: ProjArena,
    expl0: Seq<Explosion>,
    pm: Seq<Player>,
    am: ProjArena,
    em: Seq<Explosion>,
    players1: Seq<Player>,
    projs1: ProjArena,
    expl1: Seq<Explosion>,
)
    requires
        i >= 0,
        rel_timeout_pass_upto(cfg, now, i, players0, projs0, expl0, pm, am, em),
        rel_timeout_step(cfg, now, i, pm, am, em, players1, projs1, expl1),
    ensures
        rel_timeout_pass_upto(cfg, now, i + 1, players0, projs0, expl0, players1, projs1, expl1),
{
    assert(rel_timeout_step(cfg, now, (i + 1) - 1, pm, am, em, players1, projs1, expl1));
}

/// Every recorded explosion carries a start time the collection pass
/// can subtract safely.
pub open spec fn explosions_ok(s: Seq<Explosion>, cap: int) -> bool {
    forall|k: int| 0 <= k < s.len() ==> 0 <= (#[trigger] s[k]).start_time <= cap
}

/// Every live projectile names an existing player as its owner.
pub open spec fn owners_ok(projectiles: ProjArena, n_players: int) -> bool {
    forall|h: ProjHandle| (#[trigger] projectiles.spec_get(h)) matches Some(p) ==> p.owner
        < n_players
}

/// One movement-and-collision tick for every projectile.  Cluster bombs
/// move unconditionally and ignore walls and vehicles.  Every other
/// projectile impacts at the first sampled wall hit on its path, or
/// commits the move and then hits at most one live vehicle within the
/// hit distance; the BFG additionally burns every live unobstructed
/// vehicle in beam range for time-proportional damage.  A vehicle
/// destroyed earlier in the pass is skipped by later checks.
#[verifier::rlimit(100)]
pub fn projectile_pass(
    cfg: &Config,
    map: &TileMap,
    players: &mut Vec<Player>,
    projectiles: &mut ProjArena,
    explosions: &mut Vec<Explosion>,
    bfg_beams: &mut Vec<(Vec2, Vec2)>,
    now: i64,
    dt: i64,
)
    requires
        cfg.valid(),
        map.dims_ok(),
        forall|j: int| 0 <= j < old(players)@.len() ==> (#[trigger] old(players)@[j]).wf(*cfg),
        old(projectiles).wf(),
        owners_ok(*old(projectiles), old(players)@.len() as int),
        explosions_ok(old(explosions)@, TIME_CAP as int),
        0 <= now <= TIME_CAP,
        0 <= dt <= DT_CAP,
    ensures
        final(players)@.len() == old(players)@.len(),
        forall|j: int| 0 <= j < old(players)@.len() ==> (#[trigger] final(players)@[j]).wf(*cfg)
            && spec_damaged_only(old(players)@[j], final(players)@[j]),
        final(projectiles).wf(),
        final(projectiles).slots@.len() == old(projectiles).slots@.len(),
        owners_ok(*final(projectiles), old(players)@.len() as int),
        explosions_ok(final(explosions)@, TIME_CAP as int),
        forall|h: ProjHandle| (#[trigger] final(projectiles).spec_get(h)) matches Some(p2) ==> (
        old(projectiles).spec_get(h) matches Some(p1) && p2 == (Projectile { pos: p2.pos, ..p1 })),
        forall|h: ProjHandle| old(projectiles).spec_get(h) matches Some(p) ==> (p.weapon
            == Weapon::Cb ==> (#[trigger] final(projectiles).spec_get(h)) == Some(
            Projectile { pos: spec_proj_new_pos(p.pos, p.vel, dt as int), ..p },
        )),
        forall|h: ProjHandle| old(projectiles).spec_get(h) matches Some(p) ==> (p.weapon
            != Weapon::Cb ==> ({
            let cand = spec_proj_new_pos(p.pos, p.vel, dt as int);
            &&& (map.spec_collision_between(p.pos, cand) is Some ==> (#[trigger] final(projectiles).spec_get(h)) is None)
            &&& (map.spec_collision_between(p.pos, cand) is None ==> ((#[trigger] final(projectiles).spec_get(h)) is None || final(projectiles).spec_get(h) == Some(
                Projectile { pos: cand, ..p },
            )))
        })),
        rel_proj_pass(
            *cfg,
            *map,
            now as int,
            dt as int,
            old(players)@,
            *old(projectiles),
            old(explosions)@,
            old(bfg_beams)@,
            final(players)@,
            *final(projectiles),
            final(explosions)@,
            final(bfg_beams)@,
        ),
        rel_proj_pass_upto(
            *cfg,
            *map,
            now as int,
            dt as int,
            old(projectiles).slots@.len() as int,
            old(players)@,
            *old(projectiles),
            old(explosions)@,
            old(bfg_beams)@,
            final(players)@,
            *final(projectiles),
            final(explosions)@,
            final(bfg_beams)@,
        ),
{
    let n = projectiles.slot_count();
    let np = players.len();
    let mut idx: usize = 0;
    let ghost projs0 = *old(projectiles);
    let ghost players0 = *old(players);
    let ghost expl0 = old(explosions)@;
    let ghost beams0 = old(bfg_beams)@;
    while idx < n
        invariant
            cfg.valid(),
            map.dims_ok(),
            0 <= idx <= n,
            0 <= now <= TIME_CAP,
            0 <= dt <= DT_CAP,
            np == players@.len(),
            np == players0@.len(),
            forall|j: int| 0 <= j < np ==> (#[trigger] players@[j]).wf(*cfg) && spec_damaged_only(
                players0@[j],
                players@[j],
            ),
            projectiles.wf(),
            n == projectiles.slots@.len(),
            n == projs0.slots@.len(),
            owners_ok(*projectiles, np as int),
            explosions_ok(explosions@, TIME_CAP as int),
            forall|h: ProjHandle| (#[trigger] projectiles.spec_get(h)) matches Some(p2) ==> (
            projs0.spec_get(h) matches Some(p1) && p2 == (Projectile { pos: p2.pos, ..p1 })),
            forall|h: ProjHandle| projs0.spec_get(h) is Some && h.idx >= idx ==> (
            #[trigger] projectiles.spec_get(h)) == projs0.spec_get(h),
            forall|h: ProjHandle| projs0.spec_get(h) matches Some(p) ==> (p.weapon == Weapon::Cb
                && h.idx < idx ==> (#[trigger] projectiles.spec_get(h)) == Some(
                Projectile { pos: spec_proj_new_pos(p.pos, p.vel, dt as int), ..p },
            )),
            projs0 == *old(projectiles),
            players0 == *old(players),
            expl0 == old(explosions)@,
            beams0 == old(bfg_beams)@,
            rel_proj_pass_upto(
                *cfg,
                *map,
                now as int,
                dt as int,
                idx as int,
                players0@,
                projs0,
                expl0,
                beams0,
                players@,
                *projectiles,
                explosions@,
                bfg_beams@,
            ),
            forall|h: ProjHandle| projs0.spec_get(h) matches Some(p) ==> (p.weapon != Weapon::Cb
                && h.idx < idx ==> ({
                let cand = spec_proj_new_pos(p.pos, p.vel, dt as int);
                &&& (map.spec_collision_between(p.pos, cand) is Some ==> (
                #[trigger] projectiles.spec_get(h)) is None)
                &&& (map.spec_collision_between(p.pos, cand) is None ==> (projectiles.spec_get(h)
                    is None || projectiles.spec_get(h) == Some(Projectile { pos: cand, ..p })))
            })),
        decreases n - idx,
    {
        let ghost players_it = players@;
        let ghost projs_it = *projectiles;
        let ghost expl_it = explosions@;
        let ghost beams_it = bfg_beams@;
        let item = projectiles.get_at(idx);
        match item {
            Some(p) => {
                let h = projectiles.handle_at(idx);
                proof {
                    assert(h == spec_slot_handle(projs_it, idx as int));
                }
                let cand = proj_new_pos(p.pos, p.vel, dt);
                if p.weapon == Weapon::Cb {
                    projectiles.set(h, Projectile { pos: cand, ..p });
                } else {
                    let ghost pmid = players@;
                    match map.collision_between(p.pos, cand) {
                        Some(hit) => {
                            projectile_impact(
                                cfg,
                                players,
                                projectiles,
                                explosions,
                                h,
                                hit,
                                now,
                            );
                            proof {
                                assert forall|j: int| 0 <= j < np implies (
                                #[trigger] players@[j]).wf(*cfg) && spec_damaged_only(
                                    players0@[j],
                                    players@[j],
                                ) by {
                                    lemma_damaged_only_trans(players0@[j], pmid[j], players@[j]);
                                }
                                assert(explosions@ =~= expl_it + spec_impact_explosions(
                                    *cfg,
                                    p.weapon,
                                    hit,
                                    now as int,
                                ));
                            }
                        },
                        None => {
                            projectiles.set(h, Projectile { pos: cand, ..p });
                            vehicle_hits(
                                cfg,
                                map,
                                players,
                                projectiles,
                                explosions,
                                bfg_beams,
                                h,
                                p.weapon,
                                p.owner,
                                cand,
                                now,
                                dt,
                            );
                            proof {
                                assert forall|j: int| 0 <= j < np implies (
                                #[trigger] players@[j]).wf(*cfg) && spec_damaged_only(
                                    players0@[j],
                                    players@[j],
                                ) by {
                                    lemma_damaged_only_trans(players0@[j], pmid[j], players@[j]);
                                }
                            }
                        },
                    }
                }
            },
            None => {},
        }
        proof {
            assert(rel_proj_step(
                *cfg,
                *map,
                now as int,
                dt as int,
                idx as int,
                players_it,
                projs_it,
                expl_it,
                beams_it,
                players@,
                *projectiles,
                explosions@,
                bfg_beams@,
            ));
            lemma_proj_chain_extend(
                *cfg,
                *map,
                now as int,
                dt as int,
                idx as int,
                players0@,
                projs0,
                expl0,
                beams0,
                players_it,
                projs_it,
                expl_it,
                beams_it,
                players@,
                *projectiles,
                explosions@,
                bfg_beams@,
            );
        }
        idx = idx + 1;
    }
}

/// The vehicle half of one projectile's tick, after it committed its
/// move: exactly [`spec_vehicle_scan`] from player zero — burn every
/// BFG-burnable vehicle on the way, stop at the first vehicle within
/// the hit distance, and never touch the owner or a destroyed vehicle.
fn vehicle_hits(
    cfg: &Config,
    map: &TileMap,
    players: &mut Vec<Player>,
    projectiles: &mut ProjArena,
    explosions: &mut Vec<Explosion>,
    bfg_beams: &mut Vec<(Vec2, Vec2)>,
    h: ProjHandle,
    weapon: Weapon,
    owner: usize,
    pos: Vec2,
    now: i64,
    dt: i64,
)
    requires
        cfg.valid(),
        map.dims_ok(),
        forall|j: int| 0 <= j < old(players)@.len() ==> (#[trigger] old(players)@[j]).wf(*cfg),
        old(projectiles).wf(),
        owners_ok(*old(projectiles), old(players)@.len() as int),
        old(projectiles).spec_get(h) matches Some(p) && p.owner < old(players)@.len() && p.owner
            == owner && p.weapon == weapon,
        weapon != Weapon::Cb,
        bounded(pos, PROJ_POS_BOUND as int),
        explosions_ok(old(explosions)@, TIME_CAP as int),
        0 <= now <= TIME_CAP,
        0 <= dt <= DT_CAP,
    ensures
        explosions_ok(final(explosions)@, TIME_CAP as int),
        final(players)@.len() == old(players)@.len(),
        forall|j: int| 0 <= j < old(players)@.len() ==> (#[trigger] final(players)@[j]).wf(*cfg)
            && spec_damaged_only(old(players)@[j], final(players)@[j]),
        final(projectiles).wf(),
        final(projectiles).slots@.len() == old(projectiles).slots@.len(),
        owners_ok(*final(projectiles), old(players)@.len() as int),
        forall|h2: ProjHandle| h2 != h ==> final(projectiles).spec_get(h2) == old(projectiles).spec_get(h2),
        ({
            let r = spec_vehicle_scan(
                *cfg,
                *map,
                old(players)@,
                old(explosions)@,
                old(bfg_beams)@,
                h,
                weapon,
                owner as int,
                pos,
                now as int,
                dt as int,
                0,
            );
            &&& final(players)@ == r.0
            &&& final(explosions)@ == r.1
            &&& final(bfg_beams)@ == r.2
            &&& (r.3 ==> final(projectiles).spec_get(h) is None)
            &&& (!r.3 ==> final(projectiles).spec_get(h) == old(projectiles).spec_get(h))
        }),
{
    let np = players.len();
    let mut j: usize = 0;
    let ghost players0 = *old(players);
    let ghost projs0 = *old(projectiles);
    let ghost expl0 = old(explosions)@;
    let ghost beams0 = old(bfg_beams)@;
    let ghost overall = spec_vehicle_scan(
        *cfg,
        *map,
        players0@,
        expl0,
        beams0,
        h,
        weapon,
        owner as int,
        pos,
        now as int,
        dt as int,
        0,
    );
    while j < np
        invariant
            cfg.valid(),
            map.dims_ok(),
            0 <= j <= np,
            0 <= now <= TIME_CAP,
            0 <= dt <= DT_CAP,
            np == players@.len(),
            np == players0@.len(),
            owner < np,
            bounded(pos, PROJ_POS_BOUND as int),
            forall|jj: int| 0 <= jj < np ==> (#[trigger] players@[jj]).wf(*cfg)
                && spec_damaged_only(players0@[jj], players@[jj]),
            projectiles.wf(),
            projectiles.slots@.len() == projs0.slots@.len(),
            owners_ok(*projectiles, np as int),
            forall|h2: ProjHandle| h2 != h ==> projectiles.spec_get(h2) == projs0.spec_get(h2),
            projectiles.spec_get(h) == projs0.spec_get(h),
            projs0.spec_get(h) matches Some(p) && p.owner == owner && p.weapon == weapon,
            players0 == *old(players),
            projs0 == *old(projectiles),
            expl0 == old(explosions)@,
            beams0 == old(bfg_beams)@,
            overall == spec_vehicle_scan(
                *cfg,
                *map,
                players0@,
                expl0,
                beams0,
                h,
                weapon,
                owner as int,
                pos,
                now as int,
                dt as int,
                0,
            ),
            overall == spec_vehicle_scan(
                *cfg,
                *map,
                players@,
                explosions@,
                bfg_beams@,
                h,
                weapon,
                owner as int,
                pos,
                now as int,
                dt as int,
                j as int,
            ),
            explosions_ok(explosions@, TIME_CAP as int),
        decreases np - j,
    {
        let ghost players_it = players@;
        let ghost expl_it = explosions@;
        let ghost beams_it = bfg_beams@;
        let pl = players[j];
        let alive_enemy: bool = j != owner && match pl.vehicle {
            Some(v) => v.hp > 0,
            None => false,
        };
        let mut hit = false;
        let mut burn = false;
        if alive_enemy {
            let v = match pl.vehicle {
                Some(v) => v,
                None => {
                    proof {
                        assert(false);
                    }
                    return ;
                },
            };
            let dx = fx::abs64(pos.x - v.body.pos.x);
            let dy = fx::abs64(pos.y - v.body.pos.y);
            hit = if dx <= cfg.hit_dist && dy <= cfg.hit_dist {
                proof {
                    lemma_mul_abs_bound(dx as int, dx as int, 1_000_000, 1_000_000);
                    lemma_mul_abs_bound(dy as int, dy as int, 1_000_000, 1_000_000);
                    lemma_mul_abs_bound(cfg.hit_dist as int, cfg.hit_dist as int, 1_000_000, 1_000_000);
                }
                dx * dx + dy * dy <= cfg.hit_dist * cfg.hit_dist
            } else {
                false
            };
            if !hit && weapon == Weapon::Bfg && dx <= cfg.bfg_beam_range && dy
                <= cfg.bfg_beam_range {
                proof {
                    lemma_mul_abs_bound(dx as int, dx as int, POS_MAX as int, POS_MAX as int);
                    lemma_mul_abs_bound(dy as int, dy as int, POS_MAX as int, POS_MAX as int);
                    lemma_mul_abs_bound(
                        cfg.bfg_beam_range as int,
                        cfg.bfg_beam_range as int,
                        POS_MAX as int,
                        POS_MAX as int,
                    );
                }
                if dx * dx + dy * dy <= cfg.bfg_beam_range * cfg.bfg_beam_range {
                    if map.collision_between(pos, v.body.pos).is_none() {
                        burn = true;
                    }
                }
            }
        }
        proof {
            assert(hit == spec_hittable(*cfg, players@, owner as int, pos, j as int));
            assert(burn == (weapon == Weapon::Bfg && spec_bfg_burnable(
                *cfg,
                *map,
                players@,
                owner as int,
                pos,
                j as int,
            )));
        }
        if hit {
            let ws = cfg.weapon_stats(weapon);
            let ghost pmid = players@;
            let mut pl2 = pl;
            damage_vehicle(cfg, &mut pl2, now, ws.damage, explosions);
            players.set(j, pl2);
            proof {
                assert(spec_damaged_only(pmid[j as int], pl2));
                chain_damaged(players0@, players@, pmid, j as int);
                assert(pl2 == spec_damage_player(pl, ws.damage as int));
                assert(explosions@ =~= expl_it + spec_damage_explosions(pl, now as int, ws.damage as int));
            }
            let ghost pmid2 = players@;
            let ghost emid2 = explosions@;
            projectile_impact(cfg, players, projectiles, explosions, h, pos, now);
            proof {
                assert forall|jj: int| 0 <= jj < np implies (#[trigger] players@[jj]).wf(*cfg)
                    && spec_damaged_only(players0@[jj], players@[jj]) by {
                    lemma_damaged_only_trans(players0@[jj], pmid2[jj], players@[jj]);
                }
                assert(players@ == spec_unlink(pmid2, owner as int, h));
                assert(explosions@ =~= emid2 + spec_impact_explosions(*cfg, weapon, pos, now as int));
            }
            return ;
        } else if burn {
            proof {
                lemma_mul_abs_bound(cfg.bfg_beam_dps as int, dt as int, 1_000_000_000, DT_CAP as int);
                fx::lemma_tdiv_bound(cfg.bfg_beam_dps * dt, 1000, 1_000_000_000);
                assert(cfg.bfg_beam_dps * dt >= 0) by (nonlinear_arith)
                    requires cfg.bfg_beam_dps >= 0, dt >= 0;
                fx::lemma_tdiv_nonneg(cfg.bfg_beam_dps * dt, 1000);
            }
            let dmg = (cfg.bfg_beam_dps * dt) / 1000;
            let ghost pmid = players@;
            let mut pl2 = pl;
            damage_vehicle(cfg, &mut pl2, now, dmg, explosions);
            players.set(j, pl2);
            bfg_beams.push((pos, match pl.vehicle {
                Some(v) => v.body.pos,
                None => pos,
            }));
            proof {
                assert(spec_damaged_only(pmid[j as int], pl2));
                chain_damaged(players0@, players@, pmid, j as int);
                assert(pl2 == spec_damage_player(pl, dmg as int));
                assert(explosions@ =~= expl_it + spec_damage_explosions(pl, now as int, dmg as int));
                assert(players@ == players_it.update(j as int, pl2));
            }
        }
        j = j + 1;
    }
}

/// After replacing one damaged player, the whole vector is still only
/// damaged relative to the pass baseline.
proof fn chain_damaged(base: Seq<Player>, cur: Seq<Player>, mid: Seq<Player>, j: int)
    requires
        base.len() == cur.len(),
        mid.len() == cur.len(),
        0 <= j < cur.len(),
        forall|jj: int| 0 <= jj < base.len() ==> spec_damaged_only(base[jj], #[trigger] mid[jj]),
        forall|jj: int| 0 <= jj < cur.len() && jj != j ==> cur[jj] == mid[jj],
        spec_damaged_only(mid[j], cur[j]),
    ensures
        forall|jj: int| 0 <= jj < base.len() ==> spec_damaged_only(base[jj], #[trigger] cur[jj]),
{
    assert forall|jj: int| 0 <= jj < base.len() implies spec_damaged_only(
        base[jj],
        #[trigger] cur[jj],
    ) by {
        if jj == j {
            lemma_damaged_only_trans(base[jj], mid[jj], cur[jj]);
        }
    }
}

/// Force-impact every projectile whose deadline has elapsed: exactly
/// the expired ones are removed (each producing its weapon's impact
/// effects at its current position); everything else is untouched.
pub fn projectiles_timeout_pass(
    cfg: &Config,
    players: &mut Vec<Player>,
    projectiles: &mut ProjArena,
    explosions: &mut Vec<Explosion>,
    now: i64,
)
    requires
        cfg.valid(),
        forall|j: int| 0 <= j < old(players)@.len() ==> (#[trigger] old(players)@[j]).wf(*cfg),
        old(projectiles).wf(),
        owners_ok(*old(projectiles), old(players)@.len() as int),
        explosions_ok(old(explosions)@, TIME_CAP as int),
        0 <= now <= TIME_CAP,
    ensures
        explosions_ok(final(explosions)@, TIME_CAP as int),
        final(players)@.len() == old(players)@.len(),
        forall|j: int| 0 <= j < old(players)@.len() ==> (#[trigger] final(players)@[j]).wf(*cfg)
            && spec_damaged_only(old(players)@[j], final(players)@[j]) && final(players)@[j].vehicle
            == old(players)@[j].vehicle,
        final(projectiles).wf(),
        final(projectiles).slots@.len() == old(projectiles).slots@.len(),
        owners_ok(*final(projectiles), old(players)@.len() as int),
        forall|h: ProjHandle| old(projectiles).spec_get(h) matches Some(p) ==> #[trigger] final(projectiles).spec_get(h) == (if p.deadline matches Some(d) && now > d {
            None::<Projectile>
        } else {
            old(projectiles).spec_get(h)
        }),
        rel_timeout_pass(
            *cfg,
            now as int,
            old(players)@,
            *old(projectiles),
            old(explosions)@,
            final(players)@,
            *final(projectiles),
            final(explosions)@,
        ),
        rel_timeout_pass_upto(
            *cfg,
            now as int,
            old(projectiles).slots@.len() as int,
            old(players)@,
            *old(projectiles),
            old(explosions)@,
            final(players)@,
            *final(projectiles),
            final(explosions)@,
        ),
{
    let n = projectiles.slot_count();
    let np = players.len();
    let mut idx: usize = 0;
    let ghost projs0 = *old(projectiles);
    let ghost players0 = *old(players);
    let ghost expl0 = old(explosions)@;
    while idx < n
        invariant
            cfg.valid(),
            0 <= idx <= n,
            0 <= now <= TIME_CAP,
            np == players@.len(),
            np == players0@.len(),
            forall|j: int| 0 <= j < np ==> (#[trigger] players@[j]).wf(*cfg) && spec_damaged_only(
                players0@[j],
                players@[j],
            ) && players@[j].vehicle == players0@[j].vehicle,
            projectiles.wf(),
            n == projectiles.slots@.len(),
            n == projs0.slots@.len(),
            owners_ok(*projectiles, np as int),
            explosions_ok(explosions@, TIME_CAP as int),
            forall|h: ProjHandle| projs0.spec_get(h) is Some && h.idx >= idx ==> (
            #[trigger] projectiles.spec_get(h)) == projs0.spec_get(h),
            forall|h: ProjHandle| projs0.spec_get(h) matches Some(p) ==> (h.idx < idx ==> (
            #[trigger] projectiles.spec_get(h)) == (if p.deadline matches Some(d) && now > d {
                None::<Projectile>
            } else {
                projs0.spec_get(h)
            })),
            players0 == *old(players),
            projs0 == *old(projectiles),
            expl0 == old(explosions)@,
            rel_timeout_pass_upto(
                *cfg,
                now as int,
                idx as int,
                players0@,
                projs0,
                expl0,
                players@,
                *projectiles,
                explosions@,
            ),
        decreases n - idx,
    {
        let ghost players_it = players@;
        let ghost projs_it = *projectiles;
        let ghost expl_it = explosions@;
        let item = projectiles.get_at(idx);
        match item {
            Some(p) => {
                match p.deadline {
                    Some(d) => {
                        if now > d {
                            let h = projectiles.handle_at(idx);
                            proof {
                                assert(h == spec_slot_handle(projs_it, idx as int));
                            }
                            let ghost pmid = players@;
                            projectile_impact(
                                cfg,
                                players,
                                projectiles,
                                explosions,
                                h,
                                p.pos,
                                now,
                            );
                            proof {
                                assert forall|j: int| 0 <= j < np implies (
                                #[trigger] players@[j]).wf(*cfg) && spec_damaged_only(
                                    players0@[j],
                                    players@[j],
                                ) && players@[j].vehicle == players0@[j].vehicle by {
                                    lemma_damaged_only_trans(players0@[j], pmid[j], players@[j]);
                                }
                                assert(explosions@ =~= expl_it + spec_impact_explosions(
                                    *cfg,
                                    p.weapon,
                                    p.pos,
                                    now as int,
                                ));
                            }
                        }
                    },
                    None => {},
                }
            },
            None => {},
        }
        proof {
            assert(rel_timeout_step(
                *cfg,
                now as int,
                idx as int,
                players_it,
                projs_it,
                expl_it,
                players@,
                *projectiles,
                explosions@,
            ));
            lemma_timeout_chain_extend(
                *cfg,
                now as int,
                idx as int,
                players0@,
                projs0,
                expl0,
                players_it,
                projs_it,
                expl_it,
                players@,
                *projectiles,
                explosions@,
            );
        }
        idx = idx + 1;
    }
}


/// The whole steering pass as a relation between two arenas, under a
/// fixed player list.
pub open spec fn rel_steer_pass(
    cfg: Config,
    players: Seq<Player>,
    a0: ProjArena,
    a1: ProjArena,
    dt: int,
) -> bool {
    &&& a1.slots@.len() == a0.slots@.len()
    &&& forall|h: ProjHandle| (#[trigger] a1.spec_get(h)) is Some <==> a0.spec_get(h) is Some
    &&& forall|h: ProjHandle| a0.spec_get(h) matches Some(p1) && p1.weapon != Weapon::Gm
        && p1.weapon != Weapon::Hm ==> (#[trigger] a1.spec_get(h)) == a0.spec_get(h)
    &&& forall|h: ProjHandle| a0.spec_get(h) matches Some(p1) ==> ((p1.weapon == Weapon::Gm
        || p1.weapon == Weapon::Hm) ==> (#[trigger] a1.spec_get(h)) == ({
        let st = crate::movement::spec_missile_steer(
            cfg.missile_stats,
            p1.vel,
            p1.angle as int,
            fx::spec_clamp(
                p1.turn_rate as int,
                -cfg.missile_stats.turn_rate_max as int,
                cfg.missile_stats.turn_rate_max as int,
            ),
            spec_missile_input(players, h, p1),
            dt,
        );
        Some(Projectile { vel: st.0, angle: st.1 as i64, turn_rate: st.2 as i64, ..p1 })
    }))
}

/// The whole movement-and-collision pass as a relation: every slot
/// processed once, in order.
pub open spec fn rel_proj_pass(
    cfg: Config,
    map: TileMap,
    now: int,
    dt: int,
    players0: Seq<Player>,
    projs0: ProjArena,
    expl0: Seq<Explosion>,
    beams0: Seq<(Vec2, Vec2)>,
    players1: Seq<Player>,
    projs1: ProjArena,
    expl1: Seq<Explosion>,
    beams1: Seq<(Vec2, Vec2)>,
) -> bool {
    rel_proj_pass_upto(
        cfg,
        map,
        now,
        dt,
        projs0.slots@.len() as int,
        players0,
        projs0,
        expl0,
        beams0,
        players1,
        projs1,
        expl1,
        beams1,
    )
}

/// The whole timeout pass as a relation: every slot processed once, in
/// order.
pub open spec fn rel_timeout_pass(
    cfg: Config,
    now: int,
    players0: Seq<Player>,
    projs0: ProjArena,
    expl0: Seq<Explosion>,
    players1: Seq<Player>,
    projs1: ProjArena,
    expl1: Seq<Explosion>,
) -> bool {
    rel_timeout_pass_upto(
        cfg,
        now,
        projs0.slots@.len() as int,
        players0,
        projs0,
        expl0,
        players1,
        projs1,
        expl1,
    )
}

} // verus!
