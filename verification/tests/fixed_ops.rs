//! Fixed-point scalar arithmetic: exact values for every operation.

use raytrace::fixed::{floor_div, isqrt, Fx, SCALE};

#[test]
fn from_int_scales() {
    assert_eq!(Fx::from_int(3).v, 3 * SCALE);
    assert_eq!(Fx::from_int(-2).v, -2 * SCALE);
    assert_eq!(Fx::zero().v, 0);
    assert_eq!(Fx::one().v, SCALE);
}

#[test]
fn add_sub_neg_exact() {
    let a = Fx::from_int(2);
    let b = Fx::from_int(3);
    assert_eq!(a.add(b).v, 5 * SCALE);
    assert_eq!(a.sub(b).v, -SCALE);
    assert_eq!(b.neg().v, -3 * SCALE);
}

#[test]
fn mul_exact_half_times_half() {
    let half = Fx::from_raw(32768);
    assert_eq!(half.mul(half).v, 16384);
}

#[test]
fn mul_rounds_toward_zero() {
    // -1/65536 times 1/2 is -0.5/65536, which truncates to zero (a floor
    // would give -1).
    let tiny = Fx::from_raw(-1);
    let half = Fx::from_raw(32768);
    assert_eq!(tiny.mul(half).v, 0);
}

#[test]
fn div_one_third() {
    let r = Fx::from_int(1).div(Fx::from_int(3));
    assert_eq!(r.v, (SCALE * SCALE) / (3 * SCALE));
    assert_eq!(r.v, 21845);
}

#[test]
fn div_negative_rounds_toward_zero() {
    let r = Fx::from_int(-1).div(Fx::from_int(3));
    assert_eq!(r.v, -21845);
}

#[test]
fn sqrt_exact_quarter() {
    let q = Fx::from_raw(16384);
    assert_eq!(q.sqrt().v, 32768);
}

#[test]
fn sqrt_exact_four() {
    assert_eq!(Fx::from_int(4).sqrt().v, 2 * SCALE);
}

#[test]
fn sqrt_rounds_down() {
    // sqrt(2) in raw units: isqrt(2 * 65536 * 65536) = 92681.
    let r = Fx::from_int(2).sqrt();
    assert_eq!(r.v, 92681);
    assert!(r.v * r.v <= 2 * SCALE * SCALE);
    assert!((r.v + 1) * (r.v + 1) > 2 * SCALE * SCALE);
}

#[test]
fn isqrt_small_values() {
    assert_eq!(isqrt(0), 0);
    assert_eq!(isqrt(1), 1);
    assert_eq!(isqrt(3), 1);
    assert_eq!(isqrt(4), 2);
    assert_eq!(isqrt(10), 3);
    assert_eq!(isqrt(u64::MAX as u128), 0xffff_ffff);
}

#[test]
fn floor_div_negative_goes_down() {
    assert_eq!(floor_div(-3, SCALE), -1);
    assert_eq!(floor_div(3, 2), 1);
    assert_eq!(floor_div(-4, 2), -2);
    assert_eq!(floor_div(-5, 2), -3);
}

#[test]
fn abs_min_max() {
    assert_eq!(Fx::from_int(-7).abs().v, 7 * SCALE);
    assert_eq!(Fx::from_int(2).min(Fx::from_int(5)).v, 2 * SCALE);
    assert_eq!(Fx::from_int(2).max(Fx::from_int(5)).v, 5 * SCALE);
}
