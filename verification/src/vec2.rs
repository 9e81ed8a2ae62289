//! 2D vectors with `i64` components, in milli-units.

use crate::angle::{spec_cos, spec_sin, ANG_TAU};
use crate::fx::{tdiv, FP};
use crate::{angle, fx};
use vstd::math::abs;
use vstd::prelude::*;

verus! {

/// Components this large can still be rotated and scaled without
/// overflowing; world positions stay far below it.
pub const VEC_MAX: i64 = 2_000_000_000_000;

/// The tighter component bound under which a squared magnitude still
/// fits in an `i64`.
pub const MAG_MAX: i64 = 2_000_000_000;

#[derive(Clone, Copy, PartialEq, Eq, Structural, Debug)]
pub struct Vec2 {
    pub x: i64,
    pub y: i64,
}

pub open spec fn bounded(v: Vec2, m: int) -> bool {
    -m <= v.x <= m && -m <= v.y <= m
}

impl Vec2 {
    pub open spec fn spec_add(self, o: Vec2) -> Vec2 {
        Vec2 { x: (self.x + o.x) as i64, y: (self.y + o.y) as i64 }
    }

    pub open spec fn spec_sub(self, o: Vec2) -> Vec2 {
        Vec2 { x: (self.x - o.x) as i64, y: (self.y - o.y) as i64 }
    }

    /// Componentwise `v * num / den`, truncating.
    pub open spec fn spec_mul_div(self, num: int, den: int) -> Vec2 {
        Vec2 { x: tdiv(self.x * num, den) as i64, y: tdiv(self.y * num, den) as i64 }
    }

    /// Rotation by an angle given as scaled sine and cosine.
    pub open spec fn spec_rotate_sc(self, s: int, c: int) -> Vec2 {
        Vec2 {
            x: tdiv(self.x * c - self.y * s, FP as int) as i64,
            y: tdiv(self.x * s + self.y * c, FP as int) as i64,
        }
    }

    /// Rotation by an angle in `[0, ANG_TAU)` milliradians.
    pub open spec fn spec_rotate(self, a: int) -> Vec2 {
        self.spec_rotate_sc(spec_sin(a), spec_cos(a))
    }

    pub open spec fn spec_mag2(self) -> int {
        self.x * self.x + self.y * self.y
    }

    /// The rounded-down magnitude: the unique `r >= 0` with
    /// `r * r <= |self|^2 < (r + 1) * (r + 1)`.
    pub open spec fn spec_mag(self) -> int {
        choose|r: int| r >= 0 && #[trigger] (r * r) <= self.spec_mag2() < (r + 1) * (r + 1)
    }

    /// Any root bracketing the squared magnitude is `spec_mag`.
    pub proof fn lemma_mag_is(self, r: int)
        requires
            r >= 0,
            r * r <= self.spec_mag2() < (r + 1) * (r + 1),
        ensures
            self.spec_mag() == r,
    {
        let m = self.spec_mag();
        assert(m >= 0 && m * m <= self.spec_mag2() < (m + 1) * (m + 1));
        assert(m == r) by (nonlinear_arith)
            requires
                r >= 0,
                m >= 0,
                r * r <= self.spec_mag2() < (r + 1) * (r + 1),
                m * m <= self.spec_mag2() < (m + 1) * (m + 1);
    }

    pub fn zero() -> (r: Vec2)
        ensures
            r == (Vec2 { x: 0, y: 0 }),
    {
        Vec2 { x: 0, y: 0 }
    }

    pub fn new(x: i64, y: i64) -> (r: Vec2)
        ensures
            r == (Vec2 { x, y }),
    {
        Vec2 { x, y }
    }

    pub fn add(self, o: Vec2) -> (r: Vec2)
        requires
            bounded(self, VEC_MAX as int),
            bounded(o, VEC_MAX as int),
        ensures
            r == self.spec_add(o),
            bounded(r, 2 * VEC_MAX),
    {
        Vec2 { x: self.x + o.x, y: self.y + o.y }
    }

    pub fn sub(self, o: Vec2) -> (r: Vec2)
        requires
            bounded(self, VEC_MAX as int),
            bounded(o, VEC_MAX as int),
        ensures
            r == self.spec_sub(o),
            bounded(r, 2 * VEC_MAX),
    {
        Vec2 { x: self.x - o.x, y: self.y - o.y }
    }

    /// `self * num / den`, each component truncating toward zero.
    pub fn mul_div(self, num: i64, den: i64) -> (r: Vec2)
        requires
            den > 0,
            bounded(self, VEC_MAX as int),
            -1_000_000 <= num <= 1_000_000,
        ensures
            r == self.spec_mul_div(num as int, den as int),
            bounded(r, VEC_MAX * 1_000_000),
    {
        proof {
            lemma_mul_abs_bound(self.x as int, num as int, VEC_MAX as int, 1_000_000);
            lemma_mul_abs_bound(self.y as int, num as int, VEC_MAX as int, 1_000_000);
            lemma_tdiv_shrinks(self.x * num, den as int);
            lemma_tdiv_shrinks(self.y * num, den as int);
        }
        Vec2 { x: (self.x * num) / den, y: (self.y * num) / den }
    }

    /// Rotation by scaled sine/cosine values in `[-FP, FP]`.
    pub fn rotate_sc(self, s: i64, c: i64) -> (r: Vec2)
        requires
            bounded(self, VEC_MAX as int),
            -FP <= s <= FP,
            -FP <= c <= FP,
        ensures
            r == self.spec_rotate_sc(s as int, c as int),
            bounded(r, 2 * VEC_MAX),
    {
        proof {
            lemma_mul_abs_bound(self.x as int, c as int, VEC_MAX as int, FP as int);
            lemma_mul_abs_bound(self.y as int, s as int, VEC_MAX as int, FP as int);
            lemma_mul_abs_bound(self.x as int, s as int, VEC_MAX as int, FP as int);
            lemma_mul_abs_bound(self.y as int, c as int, VEC_MAX as int, FP as int);
            lemma_tdiv_shrinks(self.x * c - self.y * s, FP as int);
            lemma_tdiv_shrinks(self.x * s + self.y * c, FP as int);
        }
        Vec2 { x: (self.x * c - self.y * s) / FP, y: (self.x * s + self.y * c) / FP }
    }

    /// Rotation by an angle in `[0, ANG_TAU)` milliradians.
    pub fn rotate(self, a: i64) -> (r: Vec2)
        requires
            bounded(self, VEC_MAX as int),
            0 <= a < ANG_TAU,
        ensures
            r == self.spec_rotate(a as int),
            bounded(r, 2 * VEC_MAX),
    {
        proof {
            angle::lemma_sin_range(a as int);
            angle::lemma_cos_range(a as int);
        }
        let s = angle::sin_mrad(a);
        let c = angle::cos_mrad(a);
        self.rotate_sc(s, c)
    }

    /// Squared magnitude.
    pub fn mag2(self) -> (r: i64)
        requires
            bounded(self, MAG_MAX as int),
        ensures
            r == self.spec_mag2(),
            0 <= r <= 2 * MAG_MAX * MAG_MAX,
    {
        proof {
            lemma_mul_abs_bound(self.x as int, self.x as int, MAG_MAX as int, MAG_MAX as int);
            lemma_mul_abs_bound(self.y as int, self.y as int, MAG_MAX as int, MAG_MAX as int);
            assert(self.x * self.x >= 0) by (nonlinear_arith);
            assert(self.y * self.y >= 0) by (nonlinear_arith);
        }
        self.x * self.x + self.y * self.y
    }

    /// Magnitude, rounded down.
    pub fn magnitude(self) -> (r: i64)
        requires
            bounded(self, MAG_MAX as int),
        ensures
            r == self.spec_mag(),
            r * r <= self.spec_mag2() < (r + 1) * (r + 1),
            0 <= r <= 3_000_000_000,
    {
        let m2 = self.mag2();
        let r = fx::isqrt64(m2 as u64);
        proof {
            self.lemma_mag_is(r as int);
        }
        proof {
            assert(3_000_000_000i64 * 3_000_000_000i64 > 2 * MAG_MAX * MAG_MAX)
                by (nonlinear_arith);
            assert((r as int) * (r as int) <= 2 * (MAG_MAX as int) * (MAG_MAX as int));
            assert(r <= 3_000_000_000) by (nonlinear_arith)
                requires
                    (r as int) * (r as int) <= 2 * (MAG_MAX as int) * (MAG_MAX as int),
                    3_000_000_000i64 * 3_000_000_000i64 > 2 * (MAG_MAX as int) * (MAG_MAX as int);
        }
        r as i64
    }
}

/// Every non-negative integer has an integer square root, so
/// `spec_mag` is well defined.
pub proof fn lemma_isqrt_exists(n: int)
    requires
        n >= 0,
    ensures
        exists|r: int| r >= 0 && #[trigger] (r * r) <= n < (r + 1) * (r + 1),
    decreases n,
{
    if n == 0 {
        let w: int = 0;
        assert(w >= 0 && w * w <= n < (w + 1) * (w + 1)) by (nonlinear_arith)
            requires n == 0, w == 0;
    } else {
        lemma_isqrt_exists(n - 1);
        let r = choose|r: int| r >= 0 && #[trigger] (r * r) <= n - 1 < (r + 1) * (r + 1);
        if (r + 1) * (r + 1) <= n {
            assert((r + 1) * (r + 1) <= n < (r + 2) * (r + 2)) by (nonlinear_arith)
                requires
                    (r + 1) * (r + 1) <= n,
                    n - 1 < (r + 1) * (r + 1),
                    r >= 0;
        } else {
            assert(r * r <= n < (r + 1) * (r + 1));
        }
    }
}

/// The bracketing property of `spec_mag`, from mere non-negativity.
pub proof fn lemma_mag_bracket(v: Vec2)
    ensures
        v.spec_mag() >= 0,
        v.spec_mag() * v.spec_mag() <= v.spec_mag2() < (v.spec_mag() + 1) * (v.spec_mag() + 1),
{
    assert(v.x * v.x >= 0) by (nonlinear_arith);
    assert(v.y * v.y >= 0) by (nonlinear_arith);
    lemma_isqrt_exists(v.spec_mag2());
}

/// Rotating by a zero angle is the identity.
pub proof fn lemma_rotate_zero(v: Vec2)
    ensures
        v.spec_rotate_sc(0, FP as int) == v,
{
    assert(v.x * (FP as int) - v.y * 0 == v.x * (FP as int)) by (nonlinear_arith);
    assert(v.x * 0 + v.y * (FP as int) == v.y * (FP as int)) by (nonlinear_arith);
    crate::fx::lemma_tdiv_exact(v.x as int, FP as int);
    crate::fx::lemma_tdiv_exact(v.y as int, FP as int);
}

/// Rotation at most doubles a componentwise bound.
pub proof fn lemma_rotate_bound(v: Vec2, s: int, c: int, m: int)
    requires
        bounded(v, m),
        0 <= m,
        -(FP as int) <= s <= FP as int,
        -(FP as int) <= c <= FP as int,
    ensures
        bounded(v.spec_rotate_sc(s, c), 2 * m),
{
    lemma_mul_abs_bound(v.x as int, c, m, FP as int);
    lemma_mul_abs_bound(v.y as int, s, m, FP as int);
    lemma_mul_abs_bound(v.x as int, s, m, FP as int);
    lemma_mul_abs_bound(v.y as int, c, m, FP as int);
    crate::fx::lemma_tdiv_bound(v.x * c - v.y * s, FP as int, 2 * m);
    crate::fx::lemma_tdiv_bound(v.x * s + v.y * c, FP as int, 2 * m);
}

/// `|a| <= ba` and `|b| <= bb` bound the product by `ba * bb`.
pub proof fn lemma_mul_abs_bound(a: int, b: int, ba: int, bb: int)
    requires
        abs(a) <= ba,
        abs(b) <= bb,
    ensures
        -(ba * bb) <= a * b <= ba * bb,
{
    assert(-(ba * bb) <= a * b <= ba * bb) by (nonlinear_arith)
        requires -ba <= a <= ba, -bb <= b <= bb;
}

/// Truncating division by a positive divisor never grows the magnitude.
pub proof fn lemma_tdiv_shrinks(a: int, d: int)
    requires
        d >= 1,
    ensures
        abs(tdiv(a, d)) <= abs(a),
{
    if a >= 0 {
        assert(0 <= a / d <= a) by (nonlinear_arith)
            requires a >= 0, d >= 1;
    } else {
        assert(0 <= (-a) / d <= -a) by (nonlinear_arith)
            requires -a >= 0, d >= 1;
    }
}

} // verus!
