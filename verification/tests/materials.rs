//! Scattering laws: diffuse always scatters, specular absorbs exactly when
//! the perturbed mirror direction points into the surface, refraction never
//! absorbs, and the Schlick reflectance stays in the unit interval.

use raytrace::fixed::{Fx, SCALE};
use raytrace::hittable::HitRecord;
use raytrace::material::{
    reflect, reflectance, Dielectric, Lambertian, Material, Metal, ScatterSample,
};
use raytrace::ray::Ray;
use raytrace::vec3::Vec3;

fn vi(x: i64, y: i64, z: i64) -> Vec3 {
    Vec3::new(Fx::from_int(x), Fx::from_int(y), Fx::from_int(z))
}

fn hit_at_origin(front_face: bool) -> HitRecord {
    HitRecord { p: vi(0, 0, 0), normal: vi(0, 0, 1), t: Fx::one(), front_face }
}

fn sample_x() -> ScatterSample {
    ScatterSample::new(
        Vec3::new(Fx::from_raw(32768), Fx::zero(), Fx::zero()),
        Fx::from_raw(32768),
    )
}

#[test]
fn scatter_sample_wf_check() {
    assert!(sample_x().wf_check());
    let tiny = ScatterSample::new(Vec3::zero(), Fx::zero());
    assert!(!tiny.wf_check());
    let big = ScatterSample::new(vi(2, 0, 0), Fx::zero());
    assert!(!big.wf_check());
}

#[test]
fn lambertian_always_scatters() {
    let m = Lambertian::from_color(Vec3::color(
        Fx::from_raw(100),
        Fx::from_raw(200),
        Fx::from_raw(300),
    ));
    let r = Ray::new(vi(0, 0, 1), vi(0, 0, -1));
    let res = m.scatter(&r, &hit_at_origin(true), &sample_x());
    let (scattered, att) = res.expect("diffuse scatter never absorbs");
    // Direction is the normal plus the normalized sample: (1, 0, 1).
    assert_eq!(
        (scattered.direction.x.v, scattered.direction.y.v, scattered.direction.z.v),
        (SCALE, 0, SCALE)
    );
    assert_eq!((scattered.origin.x.v, scattered.origin.y.v, scattered.origin.z.v), (0, 0, 0));
    assert_eq!((att.x.v, att.y.v, att.z.v), (100, 200, 300));
}

#[test]
fn reflect_mirrors_about_the_normal() {
    let v = Vec3::new(Fx::zero(), Fx::zero(), Fx::from_raw(-SCALE));
    let n = vi(0, 0, 1);
    let r = reflect(&v, &n);
    assert_eq!((r.x.v, r.y.v, r.z.v), (0, 0, SCALE));
}

#[test]
fn metal_reflects_head_on() {
    let m = Metal::new(
        Vec3::color(Fx::from_raw(52428), Fx::from_raw(39321), Fx::from_raw(13107)),
        Fx::zero(),
    );
    let r = Ray::new(vi(0, 0, 1), vi(0, 0, -1));
    let res = m.scatter(&r, &hit_at_origin(true), &sample_x());
    let (scattered, att) = res.expect("the mirror direction leaves the surface");
    assert_eq!(
        (scattered.direction.x.v, scattered.direction.y.v, scattered.direction.z.v),
        (0, 0, SCALE)
    );
    assert_eq!((att.x.v, att.y.v, att.z.v), (52428, 39321, 13107));
}

#[test]
fn metal_absorbs_when_perturbed_into_the_surface() {
    // A grazing incoming ray reflects along the surface; a downward fuzz
    // sample pushes the direction into the surface, which absorbs.
    let m = Metal::new(Vec3::one(), Fx::one());
    let r = Ray::new(vi(0, 0, 1), vi(1, 0, 0));
    let down = ScatterSample::new(
        Vec3::new(Fx::zero(), Fx::zero(), Fx::from_raw(-32768)),
        Fx::zero(),
    );
    assert!(m.scatter(&r, &hit_at_origin(true), &down).is_none());
    // The same ray with an upward sample scatters.
    let up = ScatterSample::new(
        Vec3::new(Fx::zero(), Fx::zero(), Fx::from_raw(32768)),
        Fx::zero(),
    );
    assert!(m.scatter(&r, &hit_at_origin(true), &up).is_some());
}

#[test]
fn metal_clamps_fuzz_to_the_unit_interval() {
    let m = Metal::new(Vec3::one(), Fx::from_int(5));
    assert_eq!(m.fuzz.v, SCALE);
    let m2 = Metal::new(Vec3::one(), Fx::from_raw(100));
    assert_eq!(m2.fuzz.v, 100);
    let m3 = Metal::new(Vec3::one(), Fx::from_int(-1));
    assert_eq!(m3.fuzz.v, 0);
}

#[test]
fn dielectric_total_internal_reflection() {
    // Grazing incidence from inside: the refraction ratio times the sine
    // exceeds one, so the ray reflects; attenuation is white.
    let d = Dielectric::new(Fx::from_raw(98304));
    let r = Ray::new(vi(0, 0, 1), vi(1, 0, 0));
    let res = d.scatter(&r, &hit_at_origin(false), &sample_x());
    let (scattered, att) = res.expect("refractive scatter never absorbs");
    assert_eq!(
        (scattered.direction.x.v, scattered.direction.y.v, scattered.direction.z.v),
        (SCALE, 0, 0)
    );
    assert_eq!((att.x.v, att.y.v, att.z.v), (SCALE, SCALE, SCALE));
}

#[test]
fn dielectric_refracts_at_normal_incidence() {
    // Straight-on entry with a losing Schlick coin passes straight through.
    let d = Dielectric::new(Fx::from_raw(98304));
    let r = Ray::new(vi(0, 0, 1), vi(0, 0, -1));
    let res = d.scatter(&r, &hit_at_origin(true), &sample_x());
    let (scattered, att) = res.expect("refractive scatter never absorbs");
    assert_eq!(
        (scattered.direction.x.v, scattered.direction.y.v, scattered.direction.z.v),
        (0, 0, -SCALE)
    );
    assert_eq!((att.x.v, att.y.v, att.z.v), (SCALE, SCALE, SCALE));
}

#[test]
fn dielectric_reflects_on_a_winning_coin() {
    // With a coin of zero, any positive reflectance wins and the ray
    // reflects instead of refracting.
    let d = Dielectric::new(Fx::from_raw(98304));
    let r = Ray::new(vi(0, 0, 1), vi(0, 0, -1));
    let coin_zero = ScatterSample::new(
        Vec3::new(Fx::from_raw(32768), Fx::zero(), Fx::zero()),
        Fx::zero(),
    );
    let res = d.scatter(&r, &hit_at_origin(true), &coin_zero);
    let (scattered, _) = res.unwrap();
    assert_eq!(
        (scattered.direction.x.v, scattered.direction.y.v, scattered.direction.z.v),
        (0, 0, SCALE)
    );
}

#[test]
fn reflectance_matches_the_schlick_formula() {
    // Normal incidence at a ratio of two thirds: only the r0 term remains.
    let q = ((SCALE - 43690) * SCALE) / (SCALE + 43690);
    let r0 = (q * q) / SCALE;
    assert_eq!(reflectance(Fx::one(), Fx::from_raw(43690)).v, r0);
}

#[test]
fn reflectance_stays_in_the_unit_interval() {
    for &cos in &[0i128, 1, 100, 32768, 65535, 65536] {
        for &ior in &[1i128, 16384, 65536, 98304, 262144] {
            let r = reflectance(Fx::from_raw(cos), Fx::from_raw(ior));
            assert!(0 <= r.v && r.v <= SCALE, "cos {} ior {} gave {}", cos, ior, r.v);
        }
    }
}

#[test]
fn material_dispatch_matches_variants() {
    let r = Ray::new(vi(0, 0, 1), vi(0, 0, -1));
    let lam = Material::Lambertian(Lambertian::from_color(Vec3::one()));
    assert!(lam.scatter(&r, &hit_at_origin(true), &sample_x()).is_some());
    let die = Material::Dielectric(Dielectric::new(Fx::from_raw(98304)));
    assert!(die.scatter(&r, &hit_at_origin(true), &sample_x()).is_some());
}
