//! The tile map and its collision queries.
//!
//! The world is a grid of square tiles, each either open or a wall;
//! everything outside the grid counts as wall.  Segments are tested by
//! sampling at most a quarter tile apart, which is exact for the point
//! sizes this game moves per tick; the sampled hit point is part of the
//! contract, so callers and tests agree on it bit for bit.

use crate::angle::ANG_TAU;
use crate::config::POS_MAX;
use crate::fx::tdiv;
use crate::rng;
use crate::vec2::Vec2;
use rand::rngs::SmallRng;
use vstd::prelude::*;

verus! {

/// Tile side, in milli-units.
pub const TILE: i64 = 64_000;

/// Sampling step of segment collision queries, in milli-units.
pub const SEG_STEP: i64 = 16_000;

/// Coordinate bound under which segment queries stay exact.
pub const SEG_MAX: i64 = 2_000_000_000;

pub struct TileMap {
    /// Width in tiles.
    pub width: usize,
    /// Height in tiles.
    pub height: usize,
    /// Row-major wall flags, `width * height` of them.
    pub walls: Vec<bool>,
    /// Designated spawn locations with their facing angles.
    pub spawns: Vec<(Vec2, i64)>,
}

impl TileMap {
    /// Grid shape: both dimensions positive and small enough that every
    /// in-map coordinate is far below [`POS_MAX`].
    pub open spec fn dims_ok(self) -> bool {
        &&& 1 <= self.width <= 15_000
        &&& 1 <= self.height <= 15_000
        &&& self.walls@.len() == self.width * self.height
    }

    /// Every designated spawn stands on open ground with a wrapped angle.
    pub open spec fn spawns_ok(self) -> bool {
        &&& self.spawns@.len() <= 10_000
        &&& forall|i: int| 0 <= i < self.spawns@.len() ==> {
            &&& !self.spec_collision((#[trigger] self.spawns@[i]).0)
            &&& 0 <= self.spawns@[i].1 < ANG_TAU
        }
    }

    pub open spec fn wf(self) -> bool {
        self.dims_ok() && self.spawns_ok()
    }

    /// Point-in-wall test; outside the grid counts as wall.
    pub open spec fn spec_collision(self, p: Vec2) -> bool {
        if p.x < 0 || p.y < 0 {
            true
        } else {
            let col = p.x as int / TILE as int;
            let row = p.y as int / TILE as int;
            col >= self.width || row >= self.height || self.walls@[row * self.width + col]
        }
    }

    pub fn collision(&self, p: Vec2) -> (r: bool)
        requires
            self.dims_ok(),
        ensures
            r == self.spec_collision(p),
    {
        if p.x < 0 || p.y < 0 {
            return true;
        }
        let col = p.x / TILE;
        let row = p.y / TILE;
        if col >= self.width as i64 || row >= self.height as i64 {
            return true;
        }
        proof {
            assert(self.walls@.len() <= 225_000_000) by (nonlinear_arith)
                requires
                    self.walls@.len() == self.width * self.height,
                    self.width <= 15_000,
                    self.height <= 15_000;
            assert((row as usize) * self.width + (col as usize) < self.walls@.len())
                by (nonlinear_arith)
                requires
                    0 <= col < self.width,
                    0 <= row < self.height,
                    self.walls@.len() == self.width * self.height;
        }
        self.walls[(row as usize) * self.width + (col as usize)]
    }

    /// A point that does not collide lies inside the grid.
    pub proof fn lemma_free_in_map(self, p: Vec2)
        requires
            self.dims_ok(),
            !self.spec_collision(p),
        ensures
            0 <= p.x < self.width * TILE <= POS_MAX,
            0 <= p.y < self.height * TILE <= POS_MAX,
    {
        let t = TILE as int;
        let col = p.x as int / t;
        let row = p.y as int / t;
        vstd::arithmetic::div_mod::lemma_fundamental_div_mod(p.x as int, t);
        vstd::arithmetic::div_mod::lemma_fundamental_div_mod(p.y as int, t);
        vstd::arithmetic::div_mod::lemma_mod_bound(p.x as int, t);
        vstd::arithmetic::div_mod::lemma_mod_bound(p.y as int, t);
        assert(p.x < self.width * t) by (nonlinear_arith)
            requires
                p.x as int == t * col + (p.x as int % t),
                0 <= p.x as int % t < t,
                col < self.width,
                t > 0;
        assert(p.y < self.height * t) by (nonlinear_arith)
            requires
                p.y as int == t * row + (p.y as int % t),
                0 <= p.y as int % t < t,
                row < self.height,
                t > 0;
        assert(self.width * t <= POS_MAX) by (nonlinear_arith)
            requires self.width <= 15_000, t == 64_000;
        assert(self.height * t <= POS_MAX) by (nonlinear_arith)
            requires self.height <= 15_000, t == 64_000;
    }

    /// How many samples a segment query takes: one per [`SEG_STEP`] of
    /// the larger axis distance, and at least one.
    pub open spec fn spec_samples(a: Vec2, b: Vec2) -> int {
        let d: int = if vstd::math::abs(b.x - a.x) >= vstd::math::abs(b.y - a.y) {
            vstd::math::abs(b.x - a.x) as int
        } else {
            vstd::math::abs(b.y - a.y) as int
        };
        d / (SEG_STEP as int) + 1
    }

    /// The `k`-th of `n` evenly spaced sample points from `a` (exclusive)
    /// to `b` (inclusive).
    pub open spec fn spec_sample_at(a: Vec2, b: Vec2, k: int, n: int) -> Vec2 {
        Vec2 {
            x: (a.x + tdiv((b.x - a.x) * k, n)) as i64,
            y: (a.y + tdiv((b.y - a.y) * k, n)) as i64,
        }
    }

    /// The first colliding sample at or after index `k`.
    pub open spec fn spec_first_hit_from(self, a: Vec2, b: Vec2, k: int, n: int) -> Option<Vec2>
        decreases n - k + 1,
    {
        if k > n {
            None
        } else if self.spec_collision(TileMap::spec_sample_at(a, b, k, n)) {
            Some(TileMap::spec_sample_at(a, b, k, n))
        } else {
            self.spec_first_hit_from(a, b, k + 1, n)
        }
    }

    /// The first wall hit along the segment from `a` to `b`, if any.
    pub open spec fn spec_collision_between(self, a: Vec2, b: Vec2) -> Option<Vec2> {
        self.spec_first_hit_from(a, b, 1, TileMap::spec_samples(a, b))
    }

    /// First wall hit on the segment from `a` to `b`: the earliest
    /// colliding sample point, or `None` when no sample collides — and
    /// then in particular the endpoint `b` is wall-free.
    pub fn collision_between(&self, a: Vec2, b: Vec2) -> (r: Option<Vec2>)
        requires
            self.dims_ok(),
            -SEG_MAX <= a.x <= SEG_MAX,
            -SEG_MAX <= a.y <= SEG_MAX,
            -SEG_MAX <= b.x <= SEG_MAX,
            -SEG_MAX <= b.y <= SEG_MAX,
        ensures
            r == self.spec_collision_between(a, b),
            r is None ==> !self.spec_collision(b),
    {
        let dx = b.x - a.x;
        let dy = b.y - a.y;
        let adx = if dx < 0 { -dx } else { dx };
        let ady = if dy < 0 { -dy } else { dy };
        let d = if adx >= ady { adx } else { ady };
        proof {
            vstd::arithmetic::div_mod::lemma_fundamental_div_mod(d as int, SEG_STEP as int);
            vstd::arithmetic::div_mod::lemma_mod_bound(d as int, SEG_STEP as int);
            assert(d as int / (SEG_STEP as int) <= 250_000) by (nonlinear_arith)
                requires
                    d as int == (SEG_STEP as int) * (d as int / (SEG_STEP as int)) + (d as int % (
                    SEG_STEP as int)),
                    0 <= d as int % (SEG_STEP as int),
                    d <= 4_000_000_000,
                    SEG_STEP == 16_000;
            assert(d as int / (SEG_STEP as int) >= 0) by (nonlinear_arith)
                requires
                    d as int == (SEG_STEP as int) * (d as int / (SEG_STEP as int)) + (d as int % (
                    SEG_STEP as int)),
                    d as int % (SEG_STEP as int) < SEG_STEP,
                    d >= 0,
                    SEG_STEP == 16_000;
        }
        let n: i64 = d / SEG_STEP + 1;
        let ghost gn = TileMap::spec_samples(a, b);
        proof {
            assert(n == gn);
        }
        let mut k: i64 = 1;
        while k <= n
            invariant
                self.dims_ok(),
                -SEG_MAX <= a.x <= SEG_MAX,
                -SEG_MAX <= a.y <= SEG_MAX,
                -SEG_MAX <= b.x <= SEG_MAX,
                -SEG_MAX <= b.y <= SEG_MAX,
                1 <= k <= n + 1,
                1 <= n <= 250_001,
                n == gn,
                gn == TileMap::spec_samples(a, b),
                self.spec_first_hit_from(a, b, 1, gn) == self.spec_first_hit_from(
                    a,
                    b,
                    k as int,
                    gn,
                ),
                forall|j: int| 1 <= j < k ==> !self.spec_collision(
                    #[trigger] TileMap::spec_sample_at(a, b, j, gn),
                ),
            decreases n + 1 - k,
        {
            let p = sample_at(a, b, k, n);
            if self.collision(p) {
                proof {
                    assert(self.spec_first_hit_from(a, b, k as int, gn) == Some(p));
                }
                return Some(p);
            }
            k = k + 1;
        }
        proof {
            lemma_sample_last(a, b, gn);
            assert(!self.spec_collision(TileMap::spec_sample_at(a, b, gn, gn)));
        }
        None
    }
}

/// Evenly spaced point along a segment, matching
/// [`TileMap::spec_sample_at`].
fn sample_at(a: Vec2, b: Vec2, k: i64, n: i64) -> (r: Vec2)
    requires
        -SEG_MAX <= a.x <= SEG_MAX,
        -SEG_MAX <= a.y <= SEG_MAX,
        -SEG_MAX <= b.x <= SEG_MAX,
        -SEG_MAX <= b.y <= SEG_MAX,
        1 <= k <= n <= 250_001,
    ensures
        r == TileMap::spec_sample_at(a, b, k as int, n as int),
{
    let dx = b.x - a.x;
    let dy = b.y - a.y;
    proof {
        crate::vec2::lemma_mul_abs_bound(dx as int, k as int, 2 * SEG_MAX as int, 250_001);
        crate::vec2::lemma_mul_abs_bound(dy as int, k as int, 2 * SEG_MAX as int, 250_001);
        crate::vec2::lemma_tdiv_shrinks(dx * k, n as int);
        crate::vec2::lemma_tdiv_shrinks(dy * k, n as int);
    }
    Vec2 { x: a.x + (dx * k) / n, y: a.y + (dy * k) / n }
}

/// The last sample of a segment query is its endpoint.
proof fn lemma_sample_last(a: Vec2, b: Vec2, n: int)
    requires
        n >= 1,
    ensures
        TileMap::spec_sample_at(a, b, n, n) == b,
{
    assert(tdiv((b.x - a.x) * n, n) == b.x - a.x) by (nonlinear_arith)
        requires n >= 1;
    assert(tdiv((b.y - a.y) * n, n) == b.y - a.y) by (nonlinear_arith)
        requires n >= 1;
}

impl TileMap {
    /// Whether some tile is open ground.
    pub open spec fn has_open_tile(self) -> bool {
        exists|i: int| 0 <= i < self.walls@.len() && !self.walls@[i]
    }

    /// One of the designated spawn locations, drawn at random.
    pub fn random_spawn(&self, rng: &mut SmallRng) -> (r: (Vec2, i64))
        requires
            self.wf(),
            self.spawns@.len() >= 1,
        ensures
            exists|i: int| 0 <= i < self.spawns@.len() && r == self.spawns@[i],
            !self.spec_collision(r.0),
            0 <= r.1 < ANG_TAU,
    {
        let i = rng::rng_range(rng, 0, self.spawns.len() as i64);
        let r = self.spawns[i as usize];
        proof {
            assert(r == self.spawns@[i as int]);
        }
        r
    }

    /// The center of the tile with the given column and row.
    pub open spec fn spec_tile_center(col: int, row: int) -> Vec2 {
        Vec2 { x: (col * TILE + TILE / 2) as i64, y: (row * TILE + TILE / 2) as i64 }
    }

    /// The center of an open tile, chosen by a bounded number of random
    /// draws with a deterministic scan as fallback, and a random facing.
    pub fn random_open_tile(&self, rng: &mut SmallRng) -> (r: (Vec2, i64))
        requires
            self.wf(),
            self.has_open_tile(),
        ensures
            !self.spec_collision(r.0),
            0 <= r.1 < ANG_TAU,
    {
        let angle = rng::rng_range(rng, 0, ANG_TAU);
        let mut tries: u64 = 0;
        while tries < 16
            invariant
                self.wf(),
                self.has_open_tile(),
                0 <= angle < ANG_TAU,
            decreases 16 - tries,
        {
            let col = rng::rng_range(rng, 0, self.width as i64);
            let row = rng::rng_range(rng, 0, self.height as i64);
            let p = tile_center(col, row);
            if !self.collision(p) {
                return (p, angle);
            }
            tries = tries + 1;
        }
        // Deterministic fallback: scan for the first open tile.
        let mut i: usize = 0;
        while i < self.walls.len()
            invariant
                self.wf(),
                self.has_open_tile(),
                0 <= angle < ANG_TAU,
                0 <= i <= self.walls@.len(),
                forall|j: int| 0 <= j < i ==> self.walls@[j],
            decreases self.walls@.len() - i,
        {
            if !self.walls[i] {
                proof {
                    let w = self.width as int;
                    vstd::arithmetic::div_mod::lemma_fundamental_div_mod(i as int, w);
                    vstd::arithmetic::div_mod::lemma_mod_bound(i as int, w);
                    assert(i as int / w < self.height) by (nonlinear_arith)
                        requires
                            i as int == w * (i as int / w) + (i as int % w),
                            0 <= i as int % w < w,
                            0 <= i as int,
                            i < self.width * self.height,
                            w == self.width as int,
                            1 <= self.width,
                            1 <= self.height;
                    self.lemma_center_of_open_tile(i as int);
                }
                let col = (i % self.width) as i64;
                let row = (i / self.width) as i64;
                let p = tile_center(col, row);
                return (p, angle);
            }
            i = i + 1;
        }
        proof {
            assert(false);
        }
        (Vec2 { x: 0, y: 0 }, 0)
    }

    /// The center of the open tile at flat index `i` does not collide.
    proof fn lemma_center_of_open_tile(self, i: int)
        requires
            self.dims_ok(),
            0 <= i < self.walls@.len(),
            !self.walls@[i],
        ensures
            !self.spec_collision(
                TileMap::spec_tile_center(i % (self.width as int), i / (self.width as int)),
            ),
    {
        let w = self.width as int;
        let t = TILE as int;
        let col = i % w;
        let row = i / w;
        vstd::arithmetic::div_mod::lemma_fundamental_div_mod(i, w);
        vstd::arithmetic::div_mod::lemma_mod_bound(i, w);
        assert(0 <= col < w);
        assert(0 <= row < self.height) by (nonlinear_arith)
            requires
                i == w * row + col,
                0 <= col < w,
                0 <= i,
                i < self.width * self.height,
                w == self.width as int,
                1 <= self.width,
                1 <= self.height;
        assert(0 <= col * t && col * t + t / 2 < 15_001 * 64_000) by (nonlinear_arith)
            requires 0 <= col < 15_001, t == 64_000;
        assert(0 <= row * t && row * t + t / 2 < 15_001 * 64_000) by (nonlinear_arith)
            requires 0 <= row < 15_001, t == 64_000;
        vstd::arithmetic::div_mod::lemma_fundamental_div_mod_converse(
            col * t + t / 2,
            t,
            col,
            t / 2,
        );
        vstd::arithmetic::div_mod::lemma_fundamental_div_mod_converse(
            row * t + t / 2,
            t,
            row,
            t / 2,
        );
        assert(row * w + col == i);
    }
}

/// Tile-center coordinates, matching [`TileMap::spec_tile_center`].
fn tile_center(col: i64, row: i64) -> (r: Vec2)
    requires
        0 <= col <= 15_000,
        0 <= row <= 15_000,
    ensures
        r == TileMap::spec_tile_center(col as int, row as int),
{
    Vec2 { x: col * TILE + TILE / 2, y: row * TILE + TILE / 2 }
}


impl TileMap {
    /// Build a map after checking every well-formedness condition at
    /// run time: grid shape in range, and every designated spawn on
    /// open ground with a wrapped angle.  Returns the map exactly when
    /// those conditions hold.
    pub fn make(width: usize, height: usize, walls: Vec<bool>, spawns: Vec<(Vec2, i64)>) -> (r:
        Option<TileMap>)
        ensures
            (r is Some) <==> (TileMap { width, height, walls, spawns }).wf(),
            r matches Some(m) ==> m == (TileMap { width, height, walls, spawns }),
    {
        if width < 1 || width > 15_000 || height < 1 || height > 15_000 {
            return None;
        }
        proof {
            assert(width * height <= 225_000_000) by (nonlinear_arith)
                requires width <= 15_000, height <= 15_000;
        }
        if walls.len() != width * height {
            return None;
        }
        if spawns.len() > 10_000 {
            return None;
        }
        let m = TileMap { width, height, walls, spawns };
        let mut i: usize = 0;
        let n = m.spawns.len();
        while i < n
            invariant
                m == (TileMap { width, height, walls, spawns }),
                m.dims_ok(),
                n == m.spawns@.len(),
                0 <= i <= n,
                forall|j: int| 0 <= j < i ==> !m.spec_collision((#[trigger] m.spawns@[j]).0) && 0
                    <= m.spawns@[j].1 < ANG_TAU,
            decreases n - i,
        {
            let sp = m.spawns[i];
            if m.collision(sp.0) || sp.1 < 0 || sp.1 >= ANG_TAU {
                proof {
                    assert(!(!m.spec_collision((m.spawns@[i as int]).0) && 0 <= m.spawns@[
                        i as int].1 < ANG_TAU));
                }
                return None;
            }
            i = i + 1;
        }
        Some(m)
    }

    /// Whether the grid holds any open tile, checked at run time.
    pub fn any_open_tile(&self) -> (r: bool)
        ensures
            r == self.has_open_tile(),
    {
        let n = self.walls.len();
        let mut i: usize = 0;
        while i < n
            invariant
                n == self.walls@.len(),
                0 <= i <= n,
                forall|j: int| 0 <= j < i ==> self.walls@[j],
            decreases n - i,
        {
            if !self.walls[i] {
                return true;
            }
            i = i + 1;
        }
        false
    }
}

} // verus!
