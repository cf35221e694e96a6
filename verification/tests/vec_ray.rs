//! Vector algebra and rays: exact componentwise results.

use raytrace::fixed::{Fx, SCALE};
use raytrace::ray::Ray;
use raytrace::vec3::Vec3;

fn vi(x: i64, y: i64, z: i64) -> Vec3 {
    Vec3::new(Fx::from_int(x), Fx::from_int(y), Fx::from_int(z))
}

#[test]
fn dot_exact() {
    let a = vi(1, 2, 3);
    let b = vi(4, 5, 6);
    assert_eq!(a.dot(&b).v, 32 * SCALE);
}

#[test]
fn cross_basis() {
    let x = vi(1, 0, 0);
    let y = vi(0, 1, 0);
    let c = x.cross(&y);
    assert_eq!(c.x.v, 0);
    assert_eq!(c.y.v, 0);
    assert_eq!(c.z.v, SCALE);
}

#[test]
fn add_sub_scale_componentwise() {
    let a = vi(1, 2, 3);
    let b = vi(4, 5, 6);
    let s = a.add(b);
    assert_eq!((s.x.v, s.y.v, s.z.v), (5 * SCALE, 7 * SCALE, 9 * SCALE));
    let d = b.sub(a);
    assert_eq!((d.x.v, d.y.v, d.z.v), (3 * SCALE, 3 * SCALE, 3 * SCALE));
    let h = a.scale(Fx::from_raw(32768));
    assert_eq!((h.x.v, h.y.v, h.z.v), (32768, SCALE, 98304));
}

#[test]
fn hadamard_product() {
    let a = vi(2, 3, 4);
    let b = vi(5, 6, 7);
    let m = a.mul(b);
    assert_eq!((m.x.v, m.y.v, m.z.v), (10 * SCALE, 18 * SCALE, 28 * SCALE));
}

#[test]
fn length_and_unit_exact() {
    let a = vi(3, 0, 0);
    assert_eq!(a.length_squared().v, 9 * SCALE);
    assert_eq!(a.length().v, 3 * SCALE);
    let u = a.unit_vector();
    assert_eq!((u.x.v, u.y.v, u.z.v), (SCALE, 0, 0));
}

#[test]
fn unit_pythagorean() {
    // (3, 4, 0) has exact length 5, so the normalization is exact.
    let a = vi(3, 4, 0);
    assert_eq!(a.length().v, 5 * SCALE);
    let u = a.unit_vector();
    assert_eq!(u.x.v, (3 * SCALE * SCALE) / (5 * SCALE));
    assert_eq!(u.y.v, (4 * SCALE * SCALE) / (5 * SCALE));
    assert_eq!(u.z.v, 0);
}

#[test]
fn clamp_components_limits() {
    let a = vi(5, -5, 1);
    let c = a.clamp_components(2 * SCALE);
    assert_eq!((c.x.v, c.y.v, c.z.v), (2 * SCALE, -2 * SCALE, SCALE));
}

#[test]
fn accessors_and_color() {
    let c = Vec3::color(Fx::from_raw(1), Fx::from_raw(2), Fx::from_raw(3));
    assert_eq!(c.r().v, 1);
    assert_eq!(c.g().v, 2);
    assert_eq!(c.b().v, 3);
}

#[test]
fn ray_at_parameter() {
    let r = Ray::new(vi(1, 0, 0), vi(0, 0, -1));
    let p = r.at(Fx::from_raw(32768));
    assert_eq!((p.x.v, p.y.v, p.z.v), (SCALE, 0, -32768));
    assert_eq!(r.origin().x.v, SCALE);
    assert_eq!(r.direction().z.v, -SCALE);
}

#[test]
fn ray_wf_check_bounds() {
    let ok = Ray::new(vi(1, 2, 3), vi(0, 0, -1));
    assert!(ok.wf_check());
    let bad = Ray::new(vi(1, 2, 3), Vec3::new(Fx::from_raw(0x2_0000_0000), Fx::zero(), Fx::zero()));
    assert!(!bad.wf_check());
}
