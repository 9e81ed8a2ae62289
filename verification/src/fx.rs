//! Fixed-point arithmetic on `i64`.
//!
//! One world unit, one second and the unit fraction are all split into
//! [`FP`] sub-units, so multiplying two scaled quantities needs a division
//! by [`FP`] afterwards.  Division follows Rust's `/`, which rounds toward
//! zero; [`tdiv`] is its specification-side mirror.

use vstd::math::abs;
use vstd::prelude::*;

verus! {

/// Sub-units per world unit / per second / per unit fraction.
pub const FP: i64 = 1000;

/// Round-toward-zero division, the value Rust's `/` computes for `b > 0`.
pub open spec fn tdiv(a: int, b: int) -> int {
    if a >= 0 {
        a / b
    } else {
        -((-a) / b)
    }
}

/// Clamping into a closed interval.
pub open spec fn spec_clamp(v: int, lo: int, hi: int) -> int {
    if v < lo {
        lo
    } else if v > hi {
        hi
    } else {
        v
    }
}

pub fn clamp64(v: i64, lo: i64, hi: i64) -> (r: i64)
    requires
        lo <= hi,
    ensures
        r == spec_clamp(v as int, lo as int, hi as int),
{
    if v < lo {
        lo
    } else if v > hi {
        hi
    } else {
        v
    }
}

pub fn abs64(v: i64) -> (r: i64)
    requires
        v > i64::MIN,
    ensures
        r == abs(v as int),
{
    if v < 0 {
        -v
    } else {
        v
    }
}

pub fn min64(a: i64, b: i64) -> (r: i64)
    ensures
        r == if a <= b { a as int } else { b as int },
{
    if a <= b {
        a
    } else {
        b
    }
}

/// Integer square root, rounded down.
pub fn isqrt64(n: u64) -> (r: u64)
    ensures
        r * r <= n < (r + 1) * (r + 1),
{
    let mut lo: u64 = 0;
    let mut hi: u64 = 4294967295;
    proof {
        assert((4294967295u64 + 1) * (4294967295u64 + 1) > u64::MAX) by (nonlinear_arith);
    }
    while lo < hi
        invariant
            lo <= hi <= 4294967295,
            lo * lo <= n,
            n < (hi + 1) * (hi + 1),
        decreases hi - lo,
    {
        let mid: u64 = lo + (hi - lo + 1) / 2;
        proof {
            assert(lo < mid <= hi);
            assert(mid * mid <= 4294967295u64 * 4294967295u64) by (nonlinear_arith)
                requires mid <= 4294967295u64;
        }
        if mid * mid <= n {
            lo = mid;
        } else {
            hi = mid - 1;
        }
    }
    lo
}

/// Truncating division keeps any bound of the form `|a| <= b * d`.
pub proof fn lemma_tdiv_bound(a: int, d: int, b: int)
    requires
        d >= 1,
        b >= 0,
        -(b * d) <= a <= b * d,
    ensures
        -b <= tdiv(a, d) <= b,
{
    vstd::arithmetic::div_mod::lemma_fundamental_div_mod_converse(b * d, d, b, 0);
    vstd::arithmetic::div_mod::lemma_fundamental_div_mod_converse(0, d, 0, 0);
    if a >= 0 {
        vstd::arithmetic::div_mod::lemma_div_is_ordered(0, a, d);
        vstd::arithmetic::div_mod::lemma_div_is_ordered(a, b * d, d);
    } else {
        vstd::arithmetic::div_mod::lemma_div_is_ordered(0, -a, d);
        vstd::arithmetic::div_mod::lemma_div_is_ordered(-a, b * d, d);
    }
}

/// Dividing zero gives zero.
pub proof fn lemma_tdiv_zero(d: int)
    requires
        d >= 1,
    ensures
        tdiv(0, d) == 0,
{
    vstd::arithmetic::div_mod::lemma_fundamental_div_mod_converse(0, d, 0, 0);
}

/// Multiplying by the divisor and dividing back is the identity.
pub proof fn lemma_tdiv_exact(a: int, d: int)
    requires
        d >= 1,
    ensures
        tdiv(a * d, d) == a,
{
    if a >= 0 {
        vstd::arithmetic::div_mod::lemma_fundamental_div_mod_converse(a * d, d, a, 0);
    } else {
        assert(-(a * d) == (-a) * d) by (nonlinear_arith);
        vstd::arithmetic::div_mod::lemma_fundamental_div_mod_converse((-a) * d, d, -a, 0);
        assert(a * d < 0) by (nonlinear_arith)
            requires a < 0, d >= 1;
    }
}

/// Truncating division of a non-negative value stays non-negative.
pub proof fn lemma_tdiv_nonneg(a: int, d: int)
    requires
        a >= 0,
        d >= 1,
    ensures
        tdiv(a, d) >= 0,
{
    vstd::arithmetic::div_mod::lemma_fundamental_div_mod_converse(0, d, 0, 0);
    vstd::arithmetic::div_mod::lemma_div_is_ordered(0, a, d);
}

/// `base` raised to the `e`-th power in the fixed-point scale:
/// the fraction `base / FP` multiplied onto `FP`, `e` times, truncating
/// after each step.
pub open spec fn spec_fp_pow(base: int, e: int) -> int
    decreases e,
{
    if e <= 0 {
        FP as int
    } else {
        tdiv(spec_fp_pow(base, e - 1) * base, FP as int)
    }
}

proof fn lemma_fp_pow_range(base: int, e: int)
    requires
        0 <= base <= FP,
        0 <= e,
    ensures
        0 <= spec_fp_pow(base, e) <= FP,
    decreases e,
{
    if e > 0 {
        lemma_fp_pow_range(base, e - 1);
        let p = spec_fp_pow(base, e - 1);
        assert(0 <= p * base <= FP * FP) by (nonlinear_arith)
            requires 0 <= p <= FP, 0 <= base <= FP;
        assert(tdiv(p * base, FP as int) == p * base / (FP as int));
        assert(0 <= p * base / (FP as int) <= FP) by (nonlinear_arith)
            requires 0 <= p * base <= FP * FP;
    }
}

/// Repeated fixed-point multiplication: the per-millisecond retention
/// factor `base` applied over `e` milliseconds.
pub fn fp_pow(base: i64, e: i64) -> (r: i64)
    requires
        0 <= base <= FP,
        0 <= e,
    ensures
        r == spec_fp_pow(base as int, e as int),
        0 <= r <= FP,
{
    proof {
        lemma_fp_pow_range(base as int, e as int);
    }
    let mut r: i64 = FP;
    let mut i: i64 = 0;
    while i < e
        invariant
            0 <= i <= e,
            0 <= base <= FP,
            r == spec_fp_pow(base as int, i as int),
            0 <= r <= FP,
        decreases e - i,
    {
        proof {
            lemma_fp_pow_range(base as int, i + 1);
            assert(0 <= r * base <= FP * FP) by (nonlinear_arith)
                requires 0 <= r <= FP, 0 <= base <= FP;
        }
        r = (r * base) / FP;
        i = i + 1;
    }
    r
}

} // verus!
