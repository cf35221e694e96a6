//! The trigonometric kernel and the lattice noise field.

use raytrace::fixed::{Fx, SCALE};
use raytrace::noise::{lerp, Noise};
use raytrace::trig::{cos_fx, euclid_mod, sin_fx, HALF_PI_RAW, PI_RAW, TWO_PI_RAW};
use raytrace::vec3::Vec3;

/// The half-period rational approximation, computed from its documented
/// formula on plain integers.
fn expected_half_sine(th: i128) -> i128 {
    let a = th * (PI_RAW - th);
    ((16 * a) * SCALE) / (5 * (PI_RAW * PI_RAW) - 4 * a)
}

#[test]
fn sin_zero_is_zero() {
    assert_eq!(sin_fx(Fx::zero()).v, 0);
}

#[test]
fn sin_quarter_period_matches_formula() {
    let r = sin_fx(Fx { v: HALF_PI_RAW });
    assert_eq!(r.v, expected_half_sine(HALF_PI_RAW));
    assert!(65500 <= r.v && r.v <= SCALE);
}

#[test]
fn sin_second_half_is_negated() {
    let th: i128 = 30000;
    let a = sin_fx(Fx { v: th });
    let b = sin_fx(Fx { v: th + PI_RAW });
    assert_eq!(b.v, -a.v);
}

#[test]
fn sin_is_periodic() {
    for &x in &[0i128, 1234, 100000, -98765, 300000] {
        assert_eq!(sin_fx(Fx { v: x }).v, sin_fx(Fx { v: x + TWO_PI_RAW }).v);
    }
}

#[test]
fn sin_stays_within_one() {
    for &x in &[-400000i128, -3, 0, 7, 65536, 205887, 411773, 900000] {
        let r = sin_fx(Fx { v: x }).v;
        assert!(-SCALE <= r && r <= SCALE);
    }
}

#[test]
fn cos_zero_near_one() {
    let r = cos_fx(Fx::zero());
    assert_eq!(r.v, expected_half_sine(HALF_PI_RAW));
    assert!(65500 <= r.v && r.v <= SCALE);
}

#[test]
fn euclid_mod_nonnegative() {
    assert_eq!(euclid_mod(7, 3), 1);
    assert_eq!(euclid_mod(-7, 3), 2);
    assert_eq!(euclid_mod(-6, 3), 0);
}

#[test]
fn lerp_midpoint_and_ends() {
    assert_eq!(lerp(0, SCALE, 32768), 32768);
    assert_eq!(lerp(0, SCALE, 0), 0);
    assert_eq!(lerp(0, SCALE, SCALE), SCALE);
    assert_eq!(lerp(SCALE, 0, SCALE), 0);
}

#[test]
fn noise_is_deterministic_in_the_seed() {
    let n1 = Noise::new(42);
    let n2 = Noise::new(42);
    let p = Vec3::new(Fx::from_raw(12345), Fx::from_raw(-6789), Fx::from_raw(424242));
    assert_eq!(n1.at(&p), n2.at(&p));
    assert_eq!(n1.seed, n2.seed);
}

#[test]
fn noise_stays_within_one() {
    let n = Noise::new(7);
    for &(x, y, z) in &[(0i128, 0i128, 0i128), (99999, -5, 131072), (-400000, 70000, 1)] {
        let p = Vec3::new(Fx::from_raw(x), Fx::from_raw(y), Fx::from_raw(z));
        let v = n.at(&p);
        assert!(-SCALE <= v && v <= SCALE);
    }
}

#[test]
fn noise_interpolates_lattice_values() {
    // At an exact lattice point the trilinear interpolation returns the
    // corner value itself, so two queries one whole cell apart along an
    // axis may differ; the value still stays in range.
    let n = Noise::new(3);
    let p = Vec3::new(Fx::from_int(1), Fx::from_int(2), Fx::from_int(3));
    let v = n.at(&p);
    assert!(-SCALE <= v && v <= SCALE);
}
