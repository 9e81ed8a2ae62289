//! The game state and the per-tick orchestrator.
//!
//! One tick advances game time and runs the systems in a fixed order:
//! respawn checks, self-destruction, vehicle movement, vehicle
//! bookkeeping, shooting, missile steering, projectile movement and
//! damage, projectile timeouts, explosion collection, and finally the
//! input edge bookkeeping.  The pseudo-random generator is part of the
//! state and is consumed in this fixed order, so one seed reproduces
//! one game.

use crate::arena::ProjArena;
use crate::config::{Config, DT_CAP, TIME_CAP};
use crate::entities::{Explosion, Player, RailBeam, Vehicle};
use crate::fx;
use crate::fx::FP;
use crate::input::Input;
use crate::projectiles::{explosions_ok, missiles_steer_pass, owners_ok, projectile_pass,
    projectiles_timeout_pass};
use crate::rng::rng_from_seed;
use crate::shooting::fire_weapon;
use crate::systems::{self_destruct, vehicle_input, vehicle_logic};
use crate::tilemap::TileMap;
use crate::vec2::Vec2;
use crate::weapons::VehicleKind;
use rand::rngs::SmallRng;
use vstd::pervasive::VecAdditionalExecFns;
use vstd::prelude::*;

verus! {

/// The whole simulation snapshot.
pub struct GameState {
    pub rng: SmallRng,
    pub frame_num: u64,
    /// Current game time, ms.
    pub time: i64,
    /// The previous tick's game time, ms.
    pub time_prev: i64,
    /// Delta of the last tick, ms.
    pub dt: i64,
    pub players: Vec<Player>,
    pub projectiles: ProjArena,
    pub explosions: Vec<Explosion>,
    /// Rail traces of this tick, for rendering only.
    pub rail_beams: Vec<RailBeam>,
    /// BFG beam segments of this tick, for rendering only.
    pub bfg_beams: Vec<(Vec2, Vec2)>,
}

impl GameState {
    pub open spec fn wf(self, cfg: Config) -> bool {
        &&& 0 <= self.time_prev <= self.time <= TIME_CAP
        &&& 0 <= self.dt <= DT_CAP
        &&& (forall|j: int| 0 <= j < self.players@.len() ==> (#[trigger] self.players@[j]).wf(cfg))
        &&& self.projectiles.wf()
        &&& owners_ok(self.projectiles, self.players@.len() as int)
        &&& explosions_ok(self.explosions@, TIME_CAP as int)
    }

    /// A fresh simulation at time zero with no players.
    pub fn new(cfg: &Config, seed: u64) -> (r: GameState)
        requires
            cfg.valid(),
        ensures
            r.wf(*cfg),
            r.frame_num == 0,
            r.time == 0,
            r.time_prev == 0,
            r.dt == 0,
            r.players@.len() == 0,
            r.projectiles.slots@.len() == 0,
            r.explosions@.len() == 0,
            r.rail_beams@.len() == 0,
            r.bfg_beams@.len() == 0,
    {
        GameState {
            rng: rng_from_seed(seed),
            frame_num: 0,
            time: 0,
            time_prev: 0,
            dt: 0,
            players: Vec::new(),
            projectiles: ProjArena::new(),
            explosions: Vec::new(),
            rail_beams: Vec::new(),
            bfg_beams: Vec::new(),
        }
    }

    /// Add one participant without a vehicle; the first tick with fire
    /// held spawns one.
    pub fn add_player(&mut self) -> (i: usize)
        requires
            old(self).players@.len() < usize::MAX,
        ensures
            i == old(self).players@.len(),
            final(self).players@ == old(self).players@.push(
                Player {
                    vehicle: None,
                    guided_missile: None,
                    input: crate::input::spec_neutral(),
                    input_prev: crate::input::spec_neutral(),
                },
            ),
            final(self).projectiles == old(self).projectiles,
            final(self).time == old(self).time,
            final(self).time_prev == old(self).time_prev,
            final(self).dt == old(self).dt,
            final(self).frame_num == old(self).frame_num,
            final(self).explosions == old(self).explosions,
            forall|cfg: Config| old(self).wf(cfg) ==> final(self).wf(cfg),
    {
        let i = self.players.len();
        self.players.push(
            Player {
                vehicle: None,
                guided_missile: None,
                input: Input::neutral(),
                input_prev: Input::neutral(),
            },
        );
        i
    }

    /// Hand player `i` this tick's intent vector.
    pub fn set_player_input(&mut self, i: usize, input: Input)
        requires
            i < old(self).players@.len(),
        ensures
            final(self).players@ == old(self).players@.update(
                i as int,
                Player { input, ..old(self).players@[i as int] },
            ),
            final(self).projectiles == old(self).projectiles,
            final(self).time == old(self).time,
            final(self).explosions == old(self).explosions,
            forall|cfg: Config| old(self).wf(cfg) ==> final(self).wf(cfg),
    {
        let p = self.players[i];
        self.players.set(i, Player { input, ..p });
        proof {
            assert forall|cfg: Config| old(self).wf(cfg) implies self.wf(cfg) by {
                assert forall|j: int| 0 <= j < self.players@.len() implies (
                #[trigger] self.players@[j]).wf(cfg) by {
                    assert(old(self).players@[j].wf(cfg));
                }
            }
        }
    }
}

/// Whether this player replaces their vehicle this tick: fire intent
/// with no vehicle or a destroyed one.
pub open spec fn spec_needs_respawn(p: Player) -> bool {
    p.input.fire && match p.vehicle {
        None => true,
        Some(v) => v.spec_destroyed(),
    }
}

/// Only this tick's damage may separate the two snapshots of a player:
/// the vehicle is present either way, its identity fields are kept and
/// its hit points have not risen.
pub open spec fn spec_hp_le(p0: Player, p1: Player) -> bool {
    match (p0.vehicle, p1.vehicle) {
        (Some(v0), Some(v1)) => v1.hp <= v0.hp && v1.kind == v0.kind,
        (None, None) => true,
        (None, Some(_)) => false,
        (Some(_), None) => false,
    }
}

/// The whole respawn pass as a relation: whoever does not need a
/// respawn is untouched; whoever does ends with a fresh full vehicle on
/// open ground (kind and location are random draws, so only their
/// stated properties are fixed).
pub open spec fn rel_respawn_pass(
    cfg: Config,
    map: TileMap,
    p0: Seq<Player>,
    p1: Seq<Player>,
) -> bool {
    &&& p1.len() == p0.len()
    &&& forall|j: int| 0 <= j < p0.len() && !spec_needs_respawn(p0[j]) ==> #[trigger] p1[j]
        == p0[j]
    &&& forall|j: int| 0 <= j < p0.len() && spec_needs_respawn(#[trigger] p0[j]) ==> ({
        &&& p1[j].vehicle matches Some(v) && v.hp == cfg.spec_max_hp(v.kind) && v.body.vel == (
        Vec2 { x: 0, y: 0 }) && v.body.turn_rate == 0 && v.turret_angle == 0
            && !map.spec_collision(v.body.pos) && (forall|k: int|
            0 <= k < crate::weapons::WEAPON_COUNT ==> #[trigger] v.ammo[k] == (
            crate::ammo::Ammo::Loaded {
                ready_at: 0,
                remaining: cfg.spec_weapon_stats(
                    crate::weapons::spec_weapon_from_index(k),
                ).ammo_max,
            }))
        &&& p1[j].guided_missile == p0[j].guided_missile
        &&& p1[j].input == p0[j].input
        &&& p1[j].input_prev == p0[j].input_prev
    })
}

/// Replace the vehicle of every player who holds fire without a live
/// one: a random kind on a random spawn location, full health, full
/// magazines, neutral kinematics.  Everyone else is untouched.
pub fn respawning(
    cfg: &Config,
    map: &TileMap,
    rng: &mut SmallRng,
    players: &mut Vec<Player>,
    use_spawns: bool,
)
    requires
        cfg.valid(),
        map.wf(),
        use_spawns ==> map.spawns@.len() >= 1,
        !use_spawns ==> map.has_open_tile(),
        forall|j: int| 0 <= j < old(players)@.len() ==> (#[trigger] old(players)@[j]).wf(*cfg),
    ensures
        final(players)@.len() == old(players)@.len(),
        rel_respawn_pass(*cfg, *map, old(players)@, final(players)@),
        forall|j: int| 0 <= j < old(players)@.len() ==> (#[trigger] final(players)@[j]).wf(*cfg),
        forall|j: int| 0 <= j < old(players)@.len() && !spec_needs_respawn(old(players)@[j])
            ==> final(players)@[j] == old(players)@[j],
        forall|j: int| 0 <= j < old(players)@.len() && spec_needs_respawn(#[trigger] old(players)@[j]) ==> ({
            let p1 = final(players)@[j];
            &&& p1.vehicle matches Some(v) && v.hp == cfg.spec_max_hp(v.kind) && v.body.vel == (
            Vec2 { x: 0, y: 0 }) && v.body.turn_rate == 0 && v.turret_angle == 0
                && !map.spec_collision(v.body.pos) && (forall|k: int|
                0 <= k < crate::weapons::WEAPON_COUNT ==> #[trigger] v.ammo[k] == (
                crate::ammo::Ammo::Loaded {
                    ready_at: 0,
                    remaining: cfg.spec_weapon_stats(
                        crate::weapons::spec_weapon_from_index(k),
                    ).ammo_max,
                }))
            &&& p1.guided_missile == old(players)@[j].guided_missile
            &&& p1.input == old(players)@[j].input
            &&& p1.input_prev == old(players)@[j].input_prev
        }),
{
    let n = players.len();
    let mut i: usize = 0;
    let ghost players0 = *old(players);
    while i < n
        invariant
            cfg.valid(),
            map.wf(),
            use_spawns ==> map.spawns@.len() >= 1,
            !use_spawns ==> map.has_open_tile(),
            0 <= i <= n,
            n == players@.len(),
            n == players0@.len(),
            players0 == *old(players),
            forall|j: int| 0 <= j < n ==> (#[trigger] players@[j]).wf(*cfg),
            forall|j: int| i <= j < n ==> players@[j] == players0@[j],
            forall|j: int| 0 <= j < i && !spec_needs_respawn(players0@[j]) ==> players@[j]
                == players0@[j],
            forall|j: int| 0 <= j < i && spec_needs_respawn(#[trigger] players0@[j]) ==> ({
                let p1 = players@[j];
                &&& p1.vehicle matches Some(v) && v.hp == cfg.spec_max_hp(v.kind) && v.body.vel
                    == (Vec2 { x: 0, y: 0 }) && v.body.turn_rate == 0 && v.turret_angle == 0
                    && !map.spec_collision(v.body.pos) && (forall|k: int|
                    0 <= k < crate::weapons::WEAPON_COUNT ==> #[trigger] v.ammo[k] == (
                    crate::ammo::Ammo::Loaded {
                        ready_at: 0,
                        remaining: cfg.spec_weapon_stats(
                            crate::weapons::spec_weapon_from_index(k),
                        ).ammo_max,
                    }))
                &&& p1.guided_missile == players0@[j].guided_missile
                &&& p1.input == players0@[j].input
                &&& p1.input_prev == players0@[j].input_prev
            }),
        decreases n - i,
    {
        let p = players[i];
        let dead = match p.vehicle {
            None => true,
            Some(v) => v.hp == 0,
        };
        if p.input.fire && dead {
            let ki = crate::rng::rng_range(rng, 0, 3);
            let kind = VehicleKind::from_index(ki as usize);
            let spot = if use_spawns {
                map.random_spawn(rng)
            } else {
                map.random_open_tile(rng)
            };
            proof {
                map.lemma_free_in_map(spot.0);
            }
            let v = Vehicle::spawn(cfg, kind, spot.0, spot.1);
            players.set(i, Player { vehicle: Some(v), ..p });
        }
        i = i + 1;
    }
}

/// The player after one movement tick: the vehicle's kinematic body
/// follows the movement model under the demultiplexed intent; a
/// vehicleless player is untouched.
pub open spec fn spec_moved_player(cfg: Config, map: TileMap, p: Player, dt: int) -> Player {
    match p.vehicle {
        Some(v) => Player {
            vehicle: Some(
                Vehicle {
                    body: crate::movement::spec_vehicle_movement(
                        map,
                        cfg.spec_movement_stats(v.kind),
                        cfg.spec_hitbox(v.kind),
                        v.body,
                        crate::systems::spec_vehicle_input(p),
                        dt,
                    ),
                    ..v
                },
            ),
            ..p
        },
        None => p,
    }
}

/// One movement tick for every vehicle, exactly [`spec_moved_player`];
/// a destroyed vehicle gets the neutral intent and only coasts out
/// under friction.
fn vehicles_movement_pass(cfg: &Config, map: &TileMap, players: &mut Vec<Player>, dt: i64)
    requires
        cfg.valid(),
        map.dims_ok(),
        forall|j: int| 0 <= j < old(players)@.len() ==> (#[trigger] old(players)@[j]).wf(*cfg),
        0 <= dt <= DT_CAP,
    ensures
        final(players)@.len() == old(players)@.len(),
        forall|j: int| 0 <= j < old(players)@.len() ==> (#[trigger] final(players)@[j]).wf(*cfg)
            && spec_moved_only(old(players)@[j], final(players)@[j]),
        forall|j: int| 0 <= j < old(players)@.len() ==> #[trigger] final(players)@[j]
            == spec_moved_player(*cfg, *map, old(players)@[j], dt as int),
{
    let n = players.len();
    let mut i: usize = 0;
    let ghost players0 = *old(players);
    while i < n
        invariant
            cfg.valid(),
            map.dims_ok(),
            0 <= i <= n,
            0 <= dt <= DT_CAP,
            n == players@.len(),
            n == players0@.len(),
            players0 == *old(players),
            forall|j: int| i <= j < n ==> players@[j] == players0@[j],
            forall|j: int| 0 <= j < i ==> #[trigger] players@[j] == spec_moved_player(
                *cfg,
                *map,
                players0@[j],
                dt as int,
            ),
            forall|j: int| 0 <= j < n ==> (#[trigger] players@[j]).wf(*cfg) && spec_moved_only(
                players0@[j],
                players@[j],
            ),
        decreases n - i,
    {
        let p = players[i];
        match p.vehicle {
            Some(v) => {
                let input = vehicle_input(&p);
                let stats = cfg.movement_stats(v.kind);
                let hb = cfg.hitbox(v.kind);
                let body2 = crate::movement::vehicle_movement(map, &stats, hb, v.body, input, dt);
                players.set(i, Player { vehicle: Some(Vehicle { body: body2, ..v }), ..p });
            },
            None => {},
        }
        i = i + 1;
    }
}

/// Only a vehicle's kinematic body differs between the two snapshots.
pub open spec fn spec_moved_only(p0: Player, p1: Player) -> bool {
    &&& p1.input == p0.input
    &&& p1.input_prev == p0.input_prev
    &&& p1.guided_missile == p0.guided_missile
    &&& match (p0.vehicle, p1.vehicle) {
        (Some(v0), Some(v1)) => v1 == (Vehicle { body: v1.body, ..v0 }),
        (None, None) => true,
        _ => false,
    }
}

/// Only a vehicle's selection, turret angle and ammunition differ.
pub open spec fn spec_serviced_only(p0: Player, p1: Player) -> bool {
    &&& p1.input == p0.input
    &&& p1.input_prev == p0.input_prev
    &&& p1.guided_missile == p0.guided_missile
    &&& match (p0.vehicle, p1.vehicle) {
        (Some(v0), Some(v1)) => v1 == (Vehicle {
            cur_weapon: v1.cur_weapon,
            turret_angle: v1.turret_angle,
            ammo: v1.ammo,
            ..v0
        }),
        (None, None) => true,
        _ => false,
    }
}

/// How the bookkeeping tick changes one player: the selection cycles
/// edge-triggered under the demultiplexed intent, the turret turns, the
/// newly selected slot finishes an expired reload, and nothing else
/// moves.  A vehicleless player is untouched.
pub open spec fn rel_logic_player(cfg: Config, p0: Player, p1: Player, now: int, dt: int) -> bool {
    match p0.vehicle {
        None => p1 == p0,
        Some(v) => {
            let input = crate::systems::spec_vehicle_input(p0);
            let input_prev = crate::systems::spec_vehicle_input(Player { input: p0.input_prev, ..p0 });
            let w = crate::systems::spec_cycle_weapon(v.cur_weapon, input, input_prev);
            &&& p1.guided_missile == p0.guided_missile
            &&& p1.input == p0.input
            &&& p1.input_prev == p0.input_prev
            &&& p1.vehicle matches Some(v2) && v2.cur_weapon == w && v2.turret_angle
                == crate::systems::spec_turret_after(
                v.turret_angle as int,
                input,
                cfg.turret_turn_speed as int,
                dt,
            ) && v2.ammo@ == v.ammo@.update(
                crate::weapons::weapon_index(w),
                v.ammo[crate::weapons::weapon_index(w)].spec_reload_step(
                    now,
                    cfg.spec_weapon_stats(w).ammo_max,
                ),
            ) && v2.hp == v.hp && v2.body == v.body && v2.kind == v.kind
        },
    }
}

/// The whole bookkeeping pass as a relation.
pub open spec fn rel_logic_pass(cfg: Config, p0: Seq<Player>, p1: Seq<Player>, now: int, dt: int)
    -> bool {
    &&& p1.len() == p0.len()
    &&& forall|j: int| 0 <= j < p0.len() ==> rel_logic_player(cfg, p0[j], #[trigger] p1[j], now, dt)
}

/// The whole shooting round as a relation: each player's own state per
/// [`crate::shooting::rel_shot_player`], projectiles already flying
/// preserved, and every new projectile attributed to a player who
/// could shoot.  The scatter draws and the rail traces stay with
/// `fire_weapon`'s own contract.
pub open spec fn rel_shoot_pass(
    cfg: Config,
    p0: Seq<Player>,
    a0: ProjArena,
    p1: Seq<Player>,
    a1: ProjArena,
    now: int,
) -> bool {
    &&& p1.len() == p0.len()
    &&& forall|j: int| 0 <= j < p0.len() ==> crate::shooting::rel_shot_player(
        cfg,
        p0[j],
        #[trigger] p1[j],
        now,
    )
    &&& forall|h: crate::entities::ProjHandle| a0.spec_get(h) is Some ==> #[trigger] a1.spec_get(
        h,
    ) == a0.spec_get(h)
    &&& forall|h: crate::entities::ProjHandle| (#[trigger] a1.spec_get(h)) is Some && a0.spec_get(
        h,
    ) is None ==> crate::shooting::spec_new_shot_ok(cfg, p0, now, a1.spec_get(h)->Some_0)
}

/// The weapon-cycling, turret and reload tick for every vehicle,
/// exactly [`rel_logic_player`] per player.
fn vehicles_logic_pass(cfg: &Config, players: &mut Vec<Player>, now: i64, dt: i64)
    requires
        cfg.valid(),
        forall|j: int| 0 <= j < old(players)@.len() ==> (#[trigger] old(players)@[j]).wf(*cfg),
        0 <= now <= TIME_CAP,
        0 <= dt <= DT_CAP,
    ensures
        final(players)@.len() == old(players)@.len(),
        forall|j: int| 0 <= j < old(players)@.len() ==> (#[trigger] final(players)@[j]).wf(*cfg)
            && spec_serviced_only(old(players)@[j], final(players)@[j]),
        forall|j: int| 0 <= j < old(players)@.len() ==> rel_logic_player(
            *cfg,
            old(players)@[j],
            #[trigger] final(players)@[j],
            now as int,
            dt as int,
        ),
{
    let n = players.len();
    let mut i: usize = 0;
    let ghost players0 = *old(players);
    while i < n
        invariant
            cfg.valid(),
            0 <= i <= n,
            0 <= now <= TIME_CAP,
            0 <= dt <= DT_CAP,
            n == players@.len(),
            n == players0@.len(),
            players0 == *old(players),
            forall|j: int| i <= j < n ==> players@[j] == players0@[j],
            forall|j: int| 0 <= j < i ==> rel_logic_player(
                *cfg,
                players0@[j],
                #[trigger] players@[j],
                now as int,
                dt as int,
            ),
            forall|j: int| 0 <= j < n ==> (#[trigger] players@[j]).wf(*cfg) && spec_serviced_only(
                players0@[j],
                players@[j],
            ),
        decreases n - i,
    {
        let p = players[i];
        match p.vehicle {
            Some(v) => {
                let input = vehicle_input(&p);
                let input_prev = vehicle_input(&Player { input: p.input_prev, ..p });
                let v2 = vehicle_logic(cfg, v, input, input_prev, now, dt);
                players.set(i, Player { vehicle: Some(v2), ..p });
                proof {
                    assert(rel_logic_player(
                        *cfg,
                        players0@[i as int],
                        players@[i as int],
                        now as int,
                        dt as int,
                    ));
                }
            },
            None => {},
        }
        i = i + 1;
    }
}

/// What the explosion collection keeps: everything younger than the
/// configured duration, in order.
pub open spec fn spec_kept_explosions(s: Seq<Explosion>, now: int, dur: int) -> Seq<Explosion>
    decreases s.len(),
{
    if s.len() == 0 {
        s
    } else {
        let rest = spec_kept_explosions(s.drop_last(), now, dur);
        if now - s.last().start_time <= dur {
            rest.push(s.last())
        } else {
            rest
        }
    }
}

/// Drop every explosion whose duration has elapsed, keeping the rest in
/// order.
pub fn collect_explosions(explosions: &mut Vec<Explosion>, now: i64, dur: i64)
    requires
        0 <= now,
        0 <= dur,
        forall|k: int| 0 <= k < old(explosions)@.len() ==> 0 <= (#[trigger] old(explosions)@[k]).start_time <= TIME_CAP,
    ensures
        final(explosions)@ == spec_kept_explosions(old(explosions)@, now as int, dur as int),
{
    let n = explosions.len();
    let mut kept: Vec<Explosion> = Vec::new();
    let mut i: usize = 0;
    while i < n
        invariant
            n == explosions@.len(),
            0 <= i <= n,
            0 <= now,
            0 <= dur,
            explosions@ == old(explosions)@,
            forall|k: int| 0 <= k < n ==> 0 <= (#[trigger] explosions@[k]).start_time <= TIME_CAP,
            kept@ == spec_kept_explosions(explosions@.subrange(0, i as int), now as int, dur as int),
        decreases n - i,
    {
        let e = explosions[i];
        proof {
            let sub1 = explosions@.subrange(0, i + 1);
            assert(sub1.drop_last() =~= explosions@.subrange(0, i as int));
            assert(sub1.last() == e);
        }
        if now - e.start_time <= dur {
            kept.push(e);
        }
        i = i + 1;
    }
    proof {
        assert(explosions@.subrange(0, n as int) =~= explosions@);
    }
    *explosions = kept;
}


/// Only hit points, inputs aside, may differ after a shooting round;
/// the ammunition and the missile link may also have changed.
pub open spec fn spec_shot_only(p0: Player, p1: Player) -> bool {
    &&& p1.input == p0.input
    &&& p1.input_prev == p0.input_prev
    &&& match (p0.vehicle, p1.vehicle) {
        (Some(v0), Some(v1)) => v1.hp == v0.hp && v1.kind == v0.kind,
        (None, None) => true,
        _ => false,
    }
}

proof fn lemma_shot_only_trans(p0: Player, p1: Player, p2: Player)
    requires
        spec_shot_only(p0, p1),
        spec_shot_only(p1, p2),
    ensures
        spec_shot_only(p0, p2),
{
}

/// Whether this tick's intent is a rising self-destruct edge on a
/// live vehicle.
pub open spec fn spec_sd_triggered(p: Player) -> bool {
    p.input.self_destruct && !p.input_prev.self_destruct && (p.vehicle matches Some(v) && v.hp
        > 0)
}

/// The player after the self-destruct check: destroyed with the
/// missile link cleared on a rising edge, untouched otherwise.
pub open spec fn spec_sd_player(p: Player) -> Player {
    if spec_sd_triggered(p) {
        Player {
            vehicle: Some(Vehicle { hp: 0, ..p.vehicle->Some_0 }),
            guided_missile: None,
            ..p
        }
    } else {
        p
    }
}

/// The explosions the self-destruct pass appends for players `0..i`:
/// for each triggered player, the cosmetic blast then the destruction
/// explosion, in player order.
pub open spec fn spec_sd_explosions(cfg: Config, players: Seq<Player>, now: int, i: int) -> Seq<
    Explosion,
>
    decreases i,
{
    if i <= 0 {
        Seq::empty()
    } else {
        spec_sd_explosions(cfg, players, now, i - 1) + (if spec_sd_triggered(players[i - 1]) {
            let v = players[i - 1].vehicle->Some_0;
            seq![
                Explosion {
                    pos: v.body.pos,
                    scale: cfg.self_destruct_scale,
                    start_time: now as i64,
                    bfg: false,
                },
                Explosion { pos: v.body.pos, scale: FP, start_time: now as i64, bfg: false },
            ]
        } else {
            Seq::empty()
        })
    }
}

/// The self-destruct check for every player.
fn self_destruct_pass(cfg: &Config, players: &mut Vec<Player>, now: i64, explosions: &mut Vec<
    Explosion>)
    requires
        cfg.valid(),
        forall|j: int| 0 <= j < old(players)@.len() ==> (#[trigger] old(players)@[j]).wf(*cfg),
        explosions_ok(old(explosions)@, TIME_CAP as int),
        0 <= now <= TIME_CAP,
    ensures
        final(players)@.len() == old(players)@.len(),
        forall|j: int| 0 <= j < old(players)@.len() ==> (#[trigger] final(players)@[j]).wf(*cfg)
            && spec_hp_le(old(players)@[j], final(players)@[j]) && final(players)@[j].input == old(players)@[j].input && final(players)@[j].input_prev == old(players)@[j].input_prev,
        explosions_ok(final(explosions)@, TIME_CAP as int),
        forall|j: int| 0 <= j < old(players)@.len() ==> #[trigger] final(players)@[j]
            == spec_sd_player(old(players)@[j]),
        final(explosions)@ == old(explosions)@ + spec_sd_explosions(
            *cfg,
            old(players)@,
            now as int,
            old(players)@.len() as int,
        ),
{
    let n = players.len();
    let mut i: usize = 0;
    let ghost players0 = *old(players);
    let ghost expl0 = old(explosions)@;
    while i < n
        invariant
            cfg.valid(),
            0 <= i <= n,
            0 <= now <= TIME_CAP,
            n == players@.len(),
            n == players0@.len(),
            players0 == *old(players),
            expl0 == old(explosions)@,
            explosions_ok(explosions@, TIME_CAP as int),
            forall|j: int| i <= j < n ==> players@[j] == players0@[j],
            forall|j: int| 0 <= j < i ==> #[trigger] players@[j] == spec_sd_player(players0@[j]),
            explosions@ == expl0 + spec_sd_explosions(*cfg, players0@, now as int, i as int),
            forall|j: int| 0 <= j < n ==> (#[trigger] players@[j]).wf(*cfg) && spec_hp_le(
                players0@[j],
                players@[j],
            ) && players@[j].input == players0@[j].input && players@[j].input_prev
                == players0@[j].input_prev,
        decreases n - i,
    {
        let ghost expl_it = explosions@;
        let p = players[i];
        let mut p2 = p;
        self_destruct(cfg, &mut p2, now, explosions);
        players.set(i, p2);
        proof {
            assert(spec_hp_le(players0@[i as int], p2));
            assert(p2 == spec_sd_player(p));
            assert(explosions@ =~= expl0 + spec_sd_explosions(
                *cfg,
                players0@,
                now as int,
                i + 1,
            ));
        }
        i = i + 1;
    }
    proof {
        assert(explosions@ == expl0 + spec_sd_explosions(*cfg, players0@, now as int, n as int));
    }
}

/// The fire attempt for every player, in index order.
fn shooting_pass(
    cfg: &Config,
    map: &TileMap,
    rng: &mut SmallRng,
    players: &mut Vec<Player>,
    projectiles: &mut ProjArena,
    rail_beams: &mut Vec<RailBeam>,
    now: i64,
)
    requires
        cfg.valid(),
        map.dims_ok(),
        forall|j: int| 0 <= j < old(players)@.len() ==> (#[trigger] old(players)@[j]).wf(*cfg),
        old(projectiles).wf(),
        owners_ok(*old(projectiles), old(players)@.len() as int),
        0 <= now <= TIME_CAP,
    ensures
        final(players)@.len() == old(players)@.len(),
        forall|j: int| 0 <= j < old(players)@.len() ==> (#[trigger] final(players)@[j]).wf(*cfg)
            && spec_shot_only(old(players)@[j], final(players)@[j]),
        final(projectiles).wf(),
        owners_ok(*final(projectiles), old(players)@.len() as int),
        forall|j: int| 0 <= j < old(players)@.len() ==> crate::shooting::rel_shot_player(
            *cfg,
            old(players)@[j],
            #[trigger] final(players)@[j],
            now as int,
        ),
        forall|h: crate::entities::ProjHandle| old(projectiles).spec_get(h) is Some ==> final(projectiles).spec_get(h) == old(projectiles).spec_get(h),
        forall|h: crate::entities::ProjHandle| (#[trigger] final(projectiles).spec_get(h))
            is Some && old(projectiles).spec_get(h) is None
            ==> crate::shooting::spec_new_shot_ok(
            *cfg,
            old(players)@,
            now as int,
            final(projectiles).spec_get(h)->Some_0,
        ),
{
    let n = players.len();
    let mut i: usize = 0;
    let ghost players0 = *old(players);
    let ghost projs0 = *old(projectiles);
    while i < n
        invariant
            cfg.valid(),
            map.dims_ok(),
            0 <= i <= n,
            0 <= now <= TIME_CAP,
            n == players@.len(),
            n == players0@.len(),
            players0 == *old(players),
            projs0 == *old(projectiles),
            projectiles.wf(),
            owners_ok(*projectiles, n as int),
            forall|j: int| i <= j < n ==> players@[j] == players0@[j],
            forall|j: int| 0 <= j < i ==> crate::shooting::rel_shot_player(
                *cfg,
                players0@[j],
                #[trigger] players@[j],
                now as int,
            ),
            forall|h: crate::entities::ProjHandle| projs0.spec_get(h) is Some ==> projectiles.spec_get(h) == projs0.spec_get(h),
            forall|h: crate::entities::ProjHandle| (#[trigger] projectiles.spec_get(h)) is Some
                && projs0.spec_get(h) is None ==> crate::shooting::spec_new_shot_ok(
                *cfg,
                players0@,
                now as int,
                projectiles.spec_get(h)->Some_0,
            ),
            forall|j: int| 0 <= j < n ==> (#[trigger] players@[j]).wf(*cfg) && spec_shot_only(
                players0@[j],
                players@[j],
            ),
        decreases n - i,
    {
        let ghost pmid = players@;
        let ghost amid = *projectiles;
        fire_weapon(cfg, map, rng, players, i, projectiles, rail_beams, now);
        proof {
            assert forall|j: int| 0 <= j < n implies (#[trigger] players@[j]).wf(*cfg)
                && spec_shot_only(players0@[j], players@[j]) by {
                assert(spec_shot_only(pmid[j], players@[j]));
                lemma_shot_only_trans(players0@[j], pmid[j], players@[j]);
            }
            assert(crate::shooting::rel_shot_player(
                *cfg,
                players0@[i as int],
                players@[i as int],
                now as int,
            ));
            assert forall|h: crate::entities::ProjHandle| (#[trigger] projectiles.spec_get(h))
                is Some && projs0.spec_get(h) is None implies crate::shooting::spec_new_shot_ok(
                *cfg,
                players0@,
                now as int,
                projectiles.spec_get(h)->Some_0,
            ) by {
                if amid.spec_get(h) is Some {
                    assert(projectiles.spec_get(h) == amid.spec_get(h));
                } else {
                    assert(pmid[i as int] == players0@[i as int]);
                }
            }
        }
        i = i + 1;
    }
}

/// Shift this tick's intent into the previous-intent slot of every
/// player, for the next tick's edge detection.
fn input_shift_pass(players: &mut Vec<Player>)
    ensures
        final(players)@.len() == old(players)@.len(),
        forall|j: int| 0 <= j < old(players)@.len() ==> #[trigger] final(players)@[j] == (Player {
            input_prev: old(players)@[j].input,
            ..old(players)@[j]
        }),
{
    let n = players.len();
    let mut i: usize = 0;
    let ghost players0 = *old(players);
    while i < n
        invariant
            0 <= i <= n,
            n == players@.len(),
            n == players0@.len(),
            players0 == *old(players),
            forall|j: int| i <= j < n ==> players@[j] == players0@[j],
            forall|j: int| 0 <= j < i ==> #[trigger] players@[j] == (Player {
                input_prev: players0@[j].input,
                ..players0@[j]
            }),
        decreases n - i,
    {
        let p = players[i];
        players.set(i, Player { input_prev: p.input, ..p });
        i = i + 1;
    }
}

/// Collection keeps every explosion start time in range.
proof fn lemma_kept_ok(s: Seq<Explosion>, now: int, dur: int, cap: int)
    requires
        explosions_ok(s, cap),
    ensures
        explosions_ok(spec_kept_explosions(s, now, dur), cap),
    decreases s.len(),
{
    if s.len() > 0 {
        assert(explosions_ok(s.drop_last(), cap));
        lemma_kept_ok(s.drop_last(), now, dur, cap);
    }
}

proof fn lemma_hp_le_trans(p0: Player, p1: Player, p2: Player)
    requires
        spec_hp_le(p0, p1),
        spec_hp_le(p1, p2),
    ensures
        spec_hp_le(p0, p2),
{
}

/// Tail of the tick relation after the projectile pass: the timeout
/// pass, then explosion collection and the input shift.
pub open spec fn rel_tick_after_proj(
    cfg: Config,
    t: int,
    s7: Seq<Player>,
    a7: ProjArena,
    e7: Seq<Explosion>,
    players_post: Seq<Player>,
    projs_post: ProjArena,
    expl_post: Seq<Explosion>,
) -> bool {
    exists|s8: Seq<Player>, e8: Seq<Explosion>|
        #![trigger crate::projectiles::rel_timeout_pass(cfg, t, s7, a7, e7, s8, projs_post, e8)]
        crate::projectiles::rel_timeout_pass(cfg, t, s7, a7, e7, s8, projs_post, e8) && expl_post
            == spec_kept_explosions(e8, t, cfg.explosion_duration_ms as int) && players_post
            == Seq::new(s8.len(), |j: int| Player { input_prev: s8[j].input, ..s8[j] })
}

/// Tail of the tick relation after the steering pass.
pub open spec fn rel_tick_after_steer(
    cfg: Config,
    map: TileMap,
    t: int,
    dt: int,
    s5: Seq<Player>,
    a6: ProjArena,
    e2: Seq<Explosion>,
    players_post: Seq<Player>,
    projs_post: ProjArena,
    expl_post: Seq<Explosion>,
    bfg_post: Seq<(Vec2, Vec2)>,
) -> bool {
    exists|s7: Seq<Player>, a7: ProjArena, e7: Seq<Explosion>|
        #![trigger crate::projectiles::rel_proj_pass(
            cfg,
            map,
            t,
            dt,
            s5,
            a6,
            e2,
            Seq::empty(),
            s7,
            a7,
            e7,
            bfg_post,
        )]
        crate::projectiles::rel_proj_pass(
            cfg,
            map,
            t,
            dt,
            s5,
            a6,
            e2,
            Seq::empty(),
            s7,
            a7,
            e7,
            bfg_post,
        ) && rel_tick_after_proj(cfg, t, s7, a7, e7, players_post, projs_post, expl_post)
}

/// Tail of the tick relation after the shooting round.
pub open spec fn rel_tick_after_shoot(
    cfg: Config,
    map: TileMap,
    t: int,
    dt: int,
    s5: Seq<Player>,
    a5: ProjArena,
    e2: Seq<Explosion>,
    players_post: Seq<Player>,
    projs_post: ProjArena,
    expl_post: Seq<Explosion>,
    bfg_post: Seq<(Vec2, Vec2)>,
) -> bool {
    exists|a6: ProjArena|
        #![trigger crate::projectiles::rel_steer_pass(cfg, s5, a5, a6, dt)]
        crate::projectiles::rel_steer_pass(cfg, s5, a5, a6, dt) && rel_tick_after_steer(
            cfg,
            map,
            t,
            dt,
            s5,
            a6,
            e2,
            players_post,
            projs_post,
            expl_post,
            bfg_post,
        )
}

/// Tail of the tick relation after the bookkeeping pass.
pub open spec fn rel_tick_after_logic(
    cfg: Config,
    map: TileMap,
    t: int,
    dt: int,
    s4: Seq<Player>,
    projs_pre: ProjArena,
    e2: Seq<Explosion>,
    players_post: Seq<Player>,
    projs_post: ProjArena,
    expl_post: Seq<Explosion>,
    bfg_post: Seq<(Vec2, Vec2)>,
) -> bool {
    exists|s5: Seq<Player>, a5: ProjArena|
        #![trigger rel_shoot_pass(cfg, s4, projs_pre, s5, a5, t)]
        rel_shoot_pass(cfg, s4, projs_pre, s5, a5, t) && rel_tick_after_shoot(
            cfg,
            map,
            t,
            dt,
            s5,
            a5,
            e2,
            players_post,
            projs_post,
            expl_post,
            bfg_post,
        )
}

/// Tail of the tick relation after the respawn pass: the deterministic
/// self-destruct and movement passes, then the bookkeeping chain.
pub open spec fn rel_tick_after_respawn(
    cfg: Config,
    map: TileMap,
    t: int,
    dt: int,
    s1: Seq<Player>,
    projs_pre: ProjArena,
    expl_pre: Seq<Explosion>,
    players_post: Seq<Player>,
    projs_post: ProjArena,
    expl_post: Seq<Explosion>,
    bfg_post: Seq<(Vec2, Vec2)>,
) -> bool {
    let s2 = Seq::new(s1.len(), |j: int| spec_sd_player(s1[j]));
    let e2 = expl_pre + spec_sd_explosions(cfg, s1, t, s1.len() as int);
    let s3 = Seq::new(s2.len(), |j: int| spec_moved_player(cfg, map, s2[j], dt));
    exists|s4: Seq<Player>|
        #![trigger rel_logic_pass(cfg, s3, s4, t, dt)]
        rel_logic_pass(cfg, s3, s4, t, dt) && rel_tick_after_logic(
            cfg,
            map,
            t,
            dt,
            s4,
            projs_pre,
            e2,
            players_post,
            projs_post,
            expl_post,
            bfg_post,
        )
}

/// One whole tick as a relation between the pre- and post-tick
/// simulation state: the composition, in the fixed order, of the
/// respawn, self-destruct, movement, bookkeeping, shooting,
/// missile-steering, projectile, timeout, explosion-collection and
/// input-shift passes.  The random draws (respawn placement and kind,
/// shot scatter) and the rail traces are the only parts left open
/// beyond their stated bounds.
pub open spec fn rel_tick(
    cfg: Config,
    map: TileMap,
    t: int,
    dt: int,
    players_pre: Seq<Player>,
    projs_pre: ProjArena,
    expl_pre: Seq<Explosion>,
    players_post: Seq<Player>,
    projs_post: ProjArena,
    expl_post: Seq<Explosion>,
    bfg_post: Seq<(Vec2, Vec2)>,
) -> bool {
    exists|s1: Seq<Player>|
        #![trigger rel_respawn_pass(cfg, map, players_pre, s1)]
        rel_respawn_pass(cfg, map, players_pre, s1) && rel_tick_after_respawn(
            cfg,
            map,
            t,
            dt,
            s1,
            projs_pre,
            expl_pre,
            players_post,
            projs_post,
            expl_post,
            bfg_post,
        )
}

/// One simulation step up to game time `t`.  The systems run in the
/// fixed order of the module documentation; the delta is bounded by the
/// tick cap.  The whole step is pinned by [`rel_tick`], the composition
/// of the pass relations, and between respawns no vehicle hit points
/// ever rise.
#[verifier::rlimit(100)]
pub fn tick(cfg: &Config, map: &TileMap, gs: &mut GameState, t: i64, use_spawns: bool)
    requires
        cfg.valid(),
        map.wf(),
        old(gs).wf(*cfg),
        old(gs).time <= t <= TIME_CAP,
        use_spawns ==> map.spawns@.len() >= 1,
        !use_spawns ==> map.has_open_tile(),
    ensures
        final(gs).wf(*cfg),
        final(gs).time == t,
        final(gs).time_prev == old(gs).time,
        final(gs).dt == (if t - old(gs).time <= DT_CAP {
            t - old(gs).time
        } else {
            DT_CAP as int
        }),
        final(gs).players@.len() == old(gs).players@.len(),
        forall|j: int| 0 <= j < old(gs).players@.len() ==> (#[trigger] final(gs).players@[j]).input == old(gs).players@[j].input && final(gs).players@[j].input_prev
            == old(gs).players@[j].input,
        forall|j: int| 0 <= j < old(gs).players@.len() && !spec_needs_respawn(
            #[trigger] old(gs).players@[j],
        ) ==> spec_hp_le(old(gs).players@[j], final(gs).players@[j]),
        forall|j: int| 0 <= j < old(gs).players@.len() && spec_needs_respawn(
            #[trigger] old(gs).players@[j],
        ) ==> final(gs).players@[j].vehicle is Some,
        rel_tick(
            *cfg,
            *map,
            t as int,
            final(gs).dt as int,
            old(gs).players@,
            old(gs).projectiles,
            old(gs).explosions@,
            final(gs).players@,
            final(gs).projectiles,
            final(gs).explosions@,
            final(gs).bfg_beams@,
        ),
{
    let dt = fx::min64(t - gs.time, DT_CAP);
    gs.time_prev = gs.time;
    gs.time = t;
    gs.dt = dt;
    gs.frame_num = gs.frame_num.wrapping_add(1);
    gs.rail_beams.clear();
    gs.bfg_beams.clear();
    let ghost g0 = gs.players@;
    respawning(cfg, map, &mut gs.rng, &mut gs.players, use_spawns);
    let ghost g1 = gs.players@;
    self_destruct_pass(cfg, &mut gs.players, t, &mut gs.explosions);
    let ghost g2 = gs.players@;
    let ghost ge2 = gs.explosions@;
    vehicles_movement_pass(cfg, map, &mut gs.players, dt);
    let ghost g3 = gs.players@;
    vehicles_logic_pass(cfg, &mut gs.players, t, dt);
    let ghost g4 = gs.players@;
    shooting_pass(
        cfg,
        map,
        &mut gs.rng,
        &mut gs.players,
        &mut gs.projectiles,
        &mut gs.rail_beams,
        t,
    );
    let ghost g5 = gs.players@;
    let ghost ga5 = gs.projectiles;
    missiles_steer_pass(cfg, &gs.players, &mut gs.projectiles, dt);
    let ghost ga6 = gs.projectiles;
    projectile_pass(
        cfg,
        map,
        &mut gs.players,
        &mut gs.projectiles,
        &mut gs.explosions,
        &mut gs.bfg_beams,
        t,
        dt,
    );
    let ghost g6 = gs.players@;
    let ghost ga7 = gs.projectiles;
    let ghost ge7 = gs.explosions@;
    let ghost gb7 = gs.bfg_beams@;
    projectiles_timeout_pass(cfg, &mut gs.players, &mut gs.projectiles, &mut gs.explosions, t);
    let ghost g7 = gs.players@;
    let ghost ga8 = gs.projectiles;
    let ghost ge8 = gs.explosions@;
    proof {
        lemma_kept_ok(gs.explosions@, t as int, cfg.explosion_duration_ms as int, TIME_CAP as int);
    }
    collect_explosions(&mut gs.explosions, t, cfg.explosion_duration_ms);
    input_shift_pass(&mut gs.players);
    proof {
        assert forall|j: int| 0 <= j < g0.len() && !spec_needs_respawn(#[trigger] g0[j]) implies
            spec_hp_le(g0[j], gs.players@[j]) by {
            assert(g1[j] == g0[j]);
            assert(spec_hp_le(g1[j], g2[j]));
            assert(spec_hp_le(g2[j], g3[j]));
            assert(spec_hp_le(g3[j], g4[j]));
            assert(spec_hp_le(g4[j], g5[j]));
            assert(spec_hp_le(g5[j], g6[j]));
            assert(spec_hp_le(g6[j], g7[j]));
            assert(spec_hp_le(g7[j], gs.players@[j]));
            lemma_hp_le_trans(g1[j], g2[j], g3[j]);
            lemma_hp_le_trans(g1[j], g3[j], g4[j]);
            lemma_hp_le_trans(g1[j], g4[j], g5[j]);
            lemma_hp_le_trans(g1[j], g5[j], g6[j]);
            lemma_hp_le_trans(g1[j], g6[j], g7[j]);
            lemma_hp_le_trans(g1[j], g7[j], gs.players@[j]);
        }
        assert forall|j: int| 0 <= j < g0.len() && spec_needs_respawn(#[trigger] g0[j]) implies
            gs.players@[j].vehicle is Some by {
            assert(g1[j].vehicle is Some);
            assert(spec_hp_le(g1[j], g2[j]));
            assert(spec_hp_le(g2[j], g3[j]));
            assert(spec_hp_le(g3[j], g4[j]));
            assert(spec_hp_le(g4[j], g5[j]));
            assert(spec_hp_le(g5[j], g6[j]));
            assert(spec_hp_le(g6[j], g7[j]));
            assert(spec_hp_le(g7[j], gs.players@[j]));
        }
        // The tick relation, stage by stage, witnessed by the pass
        // snapshots.
        let dtv = dt as int;
        assert(g2 =~= Seq::new(g1.len(), |j: int| spec_sd_player(g1[j])));
        assert(ge2 == old(gs).explosions@ + spec_sd_explosions(*cfg, g1, t as int, g1.len() as int));
        assert(g3 =~= Seq::new(g2.len(), |j: int| spec_moved_player(*cfg, *map, g2[j], dtv)));
        assert(rel_logic_pass(*cfg, g3, g4, t as int, dtv));
        assert(rel_shoot_pass(*cfg, g4, old(gs).projectiles, g5, ga5, t as int));
        assert(crate::projectiles::rel_steer_pass(*cfg, g5, ga5, ga6, dtv));
        assert(crate::projectiles::rel_proj_pass(
            *cfg,
            *map,
            t as int,
            dtv,
            g5,
            ga6,
            ge2,
            Seq::empty(),
            g6,
            ga7,
            ge7,
            gb7,
        ));
        assert(gs.bfg_beams@ == gb7);
        assert(crate::projectiles::rel_timeout_pass(*cfg, t as int, g6, ga7, ge7, g7, ga8, ge8));
        assert(gs.projectiles == ga8);
        assert(gs.explosions@ == spec_kept_explosions(
            ge8,
            t as int,
            cfg.explosion_duration_ms as int,
        ));
        assert(gs.players@ =~= Seq::new(
            g7.len(),
            |j: int| Player { input_prev: g7[j].input, ..g7[j] },
        ));
        assert(rel_tick_after_proj(
            *cfg,
            t as int,
            g6,
            ga7,
            ge7,
            gs.players@,
            gs.projectiles,
            gs.explosions@,
        ));
        assert(rel_tick_after_steer(
            *cfg,
            *map,
            t as int,
            dtv,
            g5,
            ga6,
            ge2,
            gs.players@,
            gs.projectiles,
            gs.explosions@,
            gs.bfg_beams@,
        ));
        assert(rel_tick_after_shoot(
            *cfg,
            *map,
            t as int,
            dtv,
            g5,
            ga5,
            ge2,
            gs.players@,
            gs.projectiles,
            gs.explosions@,
            gs.bfg_beams@,
        ));
        assert(rel_tick_after_logic(
            *cfg,
            *map,
            t as int,
            dtv,
            g4,
            old(gs).projectiles,
            ge2,
            gs.players@,
            gs.projectiles,
            gs.explosions@,
            gs.bfg_beams@,
        ));
        assert(rel_tick_after_respawn(
            *cfg,
            *map,
            t as int,
            dtv,
            g1,
            old(gs).projectiles,
            old(gs).explosions@,
            gs.players@,
            gs.projectiles,
            gs.explosions@,
            gs.bfg_beams@,
        ));
        assert(rel_respawn_pass(*cfg, *map, g0, g1));
        assert(rel_tick(
            *cfg,
            *map,
            t as int,
            dtv,
            old(gs).players@,
            old(gs).projectiles,
            old(gs).explosions@,
            gs.players@,
            gs.projectiles,
            gs.explosions@,
            gs.bfg_beams@,
        ));
    }
}


/// Advance the simulation to wall-clock time `t` in fixed-size steps:
/// whole steps are run until the remaining budget is smaller than one
/// step, so results do not depend on how the caller slices time.
pub fn advance_fixed(
    cfg: &Config,
    map: &TileMap,
    gs: &mut GameState,
    t: i64,
    step_ms: i64,
    use_spawns: bool,
)
    requires
        cfg.valid(),
        map.wf(),
        old(gs).wf(*cfg),
        old(gs).time <= t <= TIME_CAP,
        1 <= step_ms <= DT_CAP,
        use_spawns ==> map.spawns@.len() >= 1,
        !use_spawns ==> map.has_open_tile(),
    ensures
        final(gs).wf(*cfg),
        old(gs).time <= final(gs).time <= t,
        t - final(gs).time < step_ms,
        final(gs).players@.len() == old(gs).players@.len(),
{
    while gs.time + step_ms <= t
        invariant
            cfg.valid(),
            map.wf(),
            gs.wf(*cfg),
            old(gs).time <= gs.time <= t <= TIME_CAP,
            1 <= step_ms <= DT_CAP,
            use_spawns ==> map.spawns@.len() >= 1,
            !use_spawns ==> map.has_open_tile(),
            gs.players@.len() == old(gs).players@.len(),
        decreases t - gs.time,
    {
        let next = gs.time + step_ms;
        tick(cfg, map, gs, next, use_spawns);
    }
}

} // verus!
