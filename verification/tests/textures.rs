//! Texture evaluation: solid colors, checker parity and period, marble
//! range and determinism.

use raytrace::fixed::{Fx, SCALE};
use raytrace::texture::{CheckerTexture, MarbleTexture, SolidColor, Texture};
use raytrace::vec3::Vec3;

fn color_raw(r: i128, g: i128, b: i128) -> Vec3 {
    Vec3::color(Fx::from_raw(r), Fx::from_raw(g), Fx::from_raw(b))
}

fn vi(x: i64, y: i64, z: i64) -> Vec3 {
    Vec3::new(Fx::from_int(x), Fx::from_int(y), Fx::from_int(z))
}

#[test]
fn solid_ignores_the_point() {
    let c = color_raw(100, 200, 300);
    let t = Texture::Solid(SolidColor::new(c));
    let a = t.value(Fx::zero(), Fx::zero(), &vi(5, -3, 2));
    let b = t.value(Fx::zero(), Fx::zero(), &vi(-1, 0, 9));
    assert_eq!((a.x.v, a.y.v, a.z.v), (100, 200, 300));
    assert_eq!((b.x.v, b.y.v, b.z.v), (100, 200, 300));
}

#[test]
fn checker_alternates_on_unit_lattice() {
    let even = color_raw(SCALE, SCALE, SCALE);
    let odd = color_raw(0, 0, 0);
    let t = Texture::Checker(CheckerTexture::new(odd, even, Fx::one()));
    // (0.5, 0.5, 0.5): coordinates (0,0,0), even sum.
    let half = Vec3::new(Fx::from_raw(32768), Fx::from_raw(32768), Fx::from_raw(32768));
    let a = t.value(Fx::zero(), Fx::zero(), &half);
    assert_eq!(a.x.v, SCALE);
    // (1.5, 0.5, 0.5): coordinates (1,0,0), odd sum.
    let shifted = Vec3::new(Fx::from_raw(32768 + SCALE), Fx::from_raw(32768), Fx::from_raw(32768));
    let b = t.value(Fx::zero(), Fx::zero(), &shifted);
    assert_eq!(b.x.v, 0);
}

#[test]
fn checker_floor_on_negative_coordinates() {
    let even = color_raw(SCALE, SCALE, SCALE);
    let odd = color_raw(0, 0, 0);
    let t = Texture::Checker(CheckerTexture::new(odd, even, Fx::one()));
    // (-0.5, 0.5, 0.5): the floor of -0.5 is -1, an odd sum.
    let p = Vec3::new(Fx::from_raw(-32768), Fx::from_raw(32768), Fx::from_raw(32768));
    let b = t.value(Fx::zero(), Fx::zero(), &p);
    assert_eq!(b.x.v, 0);
}

#[test]
fn checker_period_is_inverse_scale() {
    // Scale one half: the parity period along each axis is two units.
    let even = color_raw(SCALE, SCALE, SCALE);
    let odd = color_raw(0, 0, 0);
    let t = Texture::Checker(CheckerTexture::new(odd, even, Fx::from_raw(32768)));
    let p = Vec3::new(Fx::from_raw(32768), Fx::from_raw(32768), Fx::from_raw(32768));
    let a = t.value(Fx::zero(), Fx::zero(), &p);
    // One period (two units) along x flips the cell; two periods return.
    let p1 = Vec3::new(Fx::from_raw(32768 + 2 * SCALE), Fx::from_raw(32768), Fx::from_raw(32768));
    let p2 = Vec3::new(Fx::from_raw(32768 + 4 * SCALE), Fx::from_raw(32768), Fx::from_raw(32768));
    let b = t.value(Fx::zero(), Fx::zero(), &p1);
    let c = t.value(Fx::zero(), Fx::zero(), &p2);
    assert_ne!(a.x.v, b.x.v);
    assert_eq!(a.x.v, c.x.v);
}

#[test]
fn marble_is_deterministic_and_in_range() {
    let c1 = color_raw(62259, 62259, 62259);
    let c2 = color_raw(26214, 19660, 19660);
    let m1 = MarbleTexture::new(Fx::from_raw(131072), c1, c2, 99);
    let m2 = MarbleTexture::new(Fx::from_raw(131072), c1, c2, 99);
    let p = Vec3::new(Fx::from_raw(-90000), Fx::from_raw(5), Fx::from_raw(70000));
    let a = m1.value(Fx::zero(), Fx::zero(), &p);
    let b = m2.value(Fx::zero(), Fx::zero(), &p);
    assert_eq!((a.x.v, a.y.v, a.z.v), (b.x.v, b.y.v, b.z.v));
    assert!(0 <= a.x.v && a.x.v <= SCALE);
    assert!(0 <= a.y.v && a.y.v <= SCALE);
    assert!(0 <= a.z.v && a.z.v <= SCALE);
}

#[test]
fn turbulence_zero_depth_vanishes() {
    let m = MarbleTexture::new(
        Fx::from_raw(131072),
        color_raw(SCALE, SCALE, SCALE),
        color_raw(0, 0, 0),
        5,
    );
    let p = vi(1, 2, 3);
    assert_eq!(m.turbulence(&p, 0).v, 0);
}

#[test]
fn turbulence_bounded_by_two() {
    let m = MarbleTexture::new(
        Fx::from_raw(131072),
        color_raw(SCALE, SCALE, SCALE),
        color_raw(0, 0, 0),
        5,
    );
    for &(x, y, z) in &[(0i64, 0i64, 0i64), (3, -4, 5), (-100, 7, 42)] {
        let t = m.turbulence(&vi(x, y, z), 7);
        assert!(0 <= t.v && t.v <= 2 * SCALE);
    }
}
