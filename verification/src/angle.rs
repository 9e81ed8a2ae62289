//! Angles in integer milliradians.
//!
//! A full turn is [`ANG_TAU`] milliradians.  Facing angles are kept wrapped
//! into `[0, ANG_TAU)`.  Sine and cosine are computed by a rational
//! approximation on integers, so they are exact functions of the angle and
//! every machine computes the same value; they are exact at 0, a quarter
//! turn and a half turn.

use crate::fx::{tdiv, FP};
use vstd::prelude::*;

verus! {

/// Half a turn, in milliradians.
pub const ANG_PI: i64 = 3142;

/// A full turn, in milliradians.
pub const ANG_TAU: i64 = 6284;

/// A quarter turn, in milliradians.
pub const ANG_QUARTER: i64 = 1571;

/// One wrapping step: brings `a` back into `[0, ANG_TAU)` provided it
/// overshot by less than a full turn on either side.
pub open spec fn spec_wrap_ang(a: int) -> int {
    if a < 0 {
        a + ANG_TAU
    } else if a >= ANG_TAU {
        a - ANG_TAU
    } else {
        a
    }
}

pub fn wrap_ang(a: i64) -> (r: i64)
    requires
        -ANG_TAU <= a < 2 * ANG_TAU,
    ensures
        r == spec_wrap_ang(a as int),
        0 <= r < ANG_TAU,
{
    if a < 0 {
        a + ANG_TAU
    } else if a >= ANG_TAU {
        a - ANG_TAU
    } else {
        a
    }
}

/// Rational sine approximation on `[0, ANG_PI]`, scaled by [`FP`].
pub open spec fn spec_sin_half(x: int) -> int {
    let q = x * (ANG_PI - x);
    tdiv(16 * q * FP, 5 * ANG_PI * ANG_PI - 4 * q)
}

/// Sine of an angle in `[0, ANG_TAU)`, scaled by [`FP`].
pub open spec fn spec_sin(a: int) -> int {
    if a <= ANG_PI {
        spec_sin_half(a)
    } else {
        -spec_sin_half(a - ANG_PI)
    }
}

/// Cosine of an angle in `[0, ANG_TAU)`, scaled by [`FP`].
pub open spec fn spec_cos(a: int) -> int {
    spec_sin(spec_wrap_ang(a + ANG_QUARTER))
}

proof fn lemma_sin_half_range(x: int)
    requires
        0 <= x <= ANG_PI,
    ensures
        0 <= spec_sin_half(x) <= FP,
{
    let h = ANG_PI as int;
    let q = x * (h - x);
    assert(0 <= q && 4 * q <= h * h) by (nonlinear_arith)
        requires 0 <= x <= h, q == x * (h - x);
    let num = 16 * q * FP;
    let den = 5 * h * h - 4 * q;
    assert(den >= 4 * h * h);
    assert(num >= 0) by (nonlinear_arith)
        requires 0 <= q, num == 16 * q * FP;
    assert(num <= den * FP) by (nonlinear_arith)
        requires 0 <= q, 4 * q <= h * h, num == 16 * q * FP, den == 5 * h * h - 4 * q;
    assert(0 <= num / den <= FP) by (nonlinear_arith)
        requires 0 <= num <= den * FP, den >= 4 * h * h, h == ANG_PI as int;
    assert(spec_sin_half(x) == num / den);
}

pub proof fn lemma_sin_range(a: int)
    requires
        0 <= a < ANG_TAU,
    ensures
        -FP <= spec_sin(a) <= FP,
{
    if a <= ANG_PI {
        lemma_sin_half_range(a);
    } else {
        lemma_sin_half_range(a - ANG_PI);
    }
}

pub proof fn lemma_cos_range(a: int)
    requires
        0 <= a < ANG_TAU,
    ensures
        -FP <= spec_cos(a) <= FP,
{
    lemma_sin_range(spec_wrap_ang(a + ANG_QUARTER));
}

/// The exact values at angle zero.
pub proof fn lemma_sin_cos_zero()
    ensures
        spec_sin(0) == 0,
        spec_cos(0) == FP,
{
    assert(spec_sin_half(0) == 0) by {
        assert(0 * (ANG_PI - 0) == 0);
        crate::fx::lemma_tdiv_zero(5 * ANG_PI * ANG_PI - 4 * 0);
    }
    assert(spec_wrap_ang(0 + ANG_QUARTER) == ANG_QUARTER as int);
    assert(spec_sin_half(ANG_QUARTER as int) == FP) by {
        assert(1571int * (3142 - 1571) == 2468041);
        assert(16 * 2468041int * 1000 == 39488656000);
        assert(5 * 3142int * 3142 - 4 * 2468041 == 39488656);
        vstd::arithmetic::div_mod::lemma_fundamental_div_mod_converse(39488656000, 39488656, 1000, 0);
    }
}

fn sin_half(x: i64) -> (r: i64)
    requires
        0 <= x <= ANG_PI,
    ensures
        r == spec_sin_half(x as int),
        0 <= r <= FP,
{
    proof {
        lemma_sin_half_range(x as int);
        assert(0 <= x * (ANG_PI - x) <= ANG_PI * ANG_PI) by (nonlinear_arith)
            requires 0 <= x <= ANG_PI;
    }
    let p: i64 = x * (ANG_PI - x);
    let num: i64 = 16 * p * FP;
    let den: i64 = 5 * ANG_PI * ANG_PI - 4 * p;
    num / den
}

/// Sine, scaled by [`FP`].
pub fn sin_mrad(a: i64) -> (r: i64)
    requires
        0 <= a < ANG_TAU,
    ensures
        r == spec_sin(a as int),
        -FP <= r <= FP,
{
    if a <= ANG_PI {
        sin_half(a)
    } else {
        -sin_half(a - ANG_PI)
    }
}

/// Cosine, scaled by [`FP`].
pub fn cos_mrad(a: i64) -> (r: i64)
    requires
        0 <= a < ANG_TAU,
    ensures
        r == spec_cos(a as int),
        -FP <= r <= FP,
{
    sin_mrad(wrap_ang(a + ANG_QUARTER))
}

} // verus!
