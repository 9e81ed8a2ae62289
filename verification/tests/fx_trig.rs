//! Fixed-point arithmetic and trigonometry.

use rec_wars::angle::{cos_mrad, sin_mrad, wrap_ang, ANG_PI, ANG_QUARTER, ANG_TAU};
use rec_wars::fx::{clamp64, fp_pow, isqrt64, FP};
use rec_wars::vec2::Vec2;

#[test]
fn isqrt_small_values() {
    assert_eq!(isqrt64(0), 0);
    assert_eq!(isqrt64(1), 1);
    assert_eq!(isqrt64(10), 3);
    assert_eq!(isqrt64(16), 4);
    assert_eq!(isqrt64(24), 4);
    assert_eq!(isqrt64(25), 5);
}

#[test]
fn isqrt_large_value() {
    assert_eq!(isqrt64(1_000_000_000_000), 1_000_000);
    assert_eq!(isqrt64(u64::MAX), 4_294_967_295);
}

#[test]
fn fp_pow_identity_and_decay() {
    // Exponent zero is the unit fraction.
    assert_eq!(fp_pow(999, 0), FP);
    // Retention of one is the identity for any exponent.
    assert_eq!(fp_pow(1000, 5), FP);
    // Retention of zero collapses immediately.
    assert_eq!(fp_pow(0, 1), 0);
    // 0.999^2 with truncation after each step: 999 * 999 / 1000 = 998.
    assert_eq!(fp_pow(999, 2), 998);
}

#[test]
fn clamping() {
    assert_eq!(clamp64(5, -3, 3), 3);
    assert_eq!(clamp64(-5, -3, 3), -3);
    assert_eq!(clamp64(2, -3, 3), 2);
}

#[test]
fn sine_cosine_exact_points() {
    assert_eq!(sin_mrad(0), 0);
    assert_eq!(cos_mrad(0), FP);
    assert_eq!(sin_mrad(ANG_QUARTER), FP);
    assert_eq!(sin_mrad(ANG_PI), 0);
    // Third quarter: sine is minus one.
    assert_eq!(sin_mrad(ANG_PI + ANG_QUARTER), -FP);
}

#[test]
fn angle_wrapping() {
    assert_eq!(wrap_ang(-100), ANG_TAU - 100);
    assert_eq!(wrap_ang(ANG_TAU + 7), 7);
    assert_eq!(wrap_ang(42), 42);
}

#[test]
fn rotation_by_zero_and_quarter() {
    let v = Vec2 { x: 5_000, y: -2_000 };
    assert_eq!(v.rotate(0), v);
    // A quarter turn maps (x, y) to (-y, x) exactly, since the quarter
    // sine and cosine are exact.
    let r = v.rotate(ANG_QUARTER);
    assert_eq!(r, Vec2 { x: 2_000, y: 5_000 });
}

#[test]
fn magnitude_rounds_down() {
    let v = Vec2 { x: 3_000, y: 4_000 };
    assert_eq!(v.magnitude(), 5_000);
    let w = Vec2 { x: 1_000, y: 1_000 };
    // sqrt(2_000_000) = 1414.2..., rounded down.
    assert_eq!(w.magnitude(), 1_414);
}
