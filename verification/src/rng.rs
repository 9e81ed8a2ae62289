//! Pseudo-random draws, backed by rand's `SmallRng`.
//!
//! The generator is part of the game state and is consumed in a fixed
//! order, so one seed reproduces one game.  Nothing is assumed about a
//! drawn value beyond its range; every consumer of a draw is verified
//! for all values in that range.

use rand::rngs::SmallRng;
use rand::Rng;
use rand::SeedableRng;
use vstd::prelude::*;

verus! {

#[verifier::external_type_specification]
#[verifier::external_body]
pub struct ExSmallRng(SmallRng);

/// Relies on rand's `SmallRng::seed_from_u64`: builds a generator from a
/// seed; the stream it yields is a function of the seed.
#[verifier::external_body]
pub fn rng_from_seed(seed: u64) -> SmallRng {
    SmallRng::seed_from_u64(seed)
}

/// Relies on rand's `Rng::gen_range`: a value drawn from `[lo, hi)`.
/// It panics only on an empty range, which the contract excludes.
#[verifier::external_body]
pub(crate) fn rng_range(rng: &mut SmallRng, lo: i64, hi: i64) -> (r: i64)
    requires
        lo < hi,
    ensures
        lo <= r < hi,
{
    rng.gen_range(lo..hi)
}

/// A draw from the symmetric range `[-m, m]`.
pub(crate) fn draw_symmetric(rng: &mut SmallRng, m: i64) -> (r: i64)
    requires
        0 <= m < 1_000_000_000_000,
    ensures
        -m <= r <= m,
{
    if m == 0 {
        0
    } else {
        rng_range(rng, -m, m + 1)
    }
}

/// A draw from `[-m, m]`, either flat or bell-shaped (the mean of four
/// flat draws); the configuration selects which.
pub(crate) fn draw_centered(rng: &mut SmallRng, m: i64, bell: bool) -> (r: i64)
    requires
        0 <= m < 1_000_000_000_000,
    ensures
        -m <= r <= m,
{
    if bell {
        let a = draw_symmetric(rng, m);
        let b = draw_symmetric(rng, m);
        let c = draw_symmetric(rng, m);
        let d = draw_symmetric(rng, m);
        (a + b + c + d) / 4
    } else {
        draw_symmetric(rng, m)
    }
}

} // verus!
