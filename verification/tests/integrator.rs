//! The recursive radiance integrator: termination, misses, absorption and
//! one-bounce reflection, end to end.

use raytrace::environment::{Environment, GradientEnvironment};
use raytrace::fixed::{Fx, SCALE};
use raytrace::hittable::HittableList;
use raytrace::material::{Lambertian, Material, Metal, ScatterSample};
use raytrace::ray::Ray;
use raytrace::sphere::Sphere;
use raytrace::vec3::Vec3;

fn vi(x: i64, y: i64, z: i64) -> Vec3 {
    Vec3::new(Fx::from_int(x), Fx::from_int(y), Fx::from_int(z))
}

fn color_raw(r: i128, g: i128, b: i128) -> Vec3 {
    Vec3::color(Fx::from_raw(r), Fx::from_raw(g), Fx::from_raw(b))
}

fn gradient() -> Environment {
    Environment::Gradient(GradientEnvironment::new(
        color_raw(100, 200, 300),
        color_raw(400, 500, 600),
    ))
}

fn samples(n: usize) -> Vec<ScatterSample> {
    let mut v = Vec::new();
    let mut i = 0;
    while i < n {
        v.push(ScatterSample::new(
            Vec3::new(Fx::from_raw(32768), Fx::zero(), Fx::zero()),
            Fx::from_raw(32768),
        ));
        i += 1;
    }
    v
}

fn one_sphere_world(material: Material) -> HittableList {
    let mut world = HittableList::new();
    world.add(Sphere::new(vi(0, 0, -1), Fx::from_raw(32768), material));
    world
}

fn diffuse() -> Material {
    Material::Lambertian(Lambertian::from_color(color_raw(32768, 32768, 32768)))
}

#[test]
fn zero_depth_is_black() {
    // An exhausted bounce budget returns exactly black, whatever the scene.
    let world = one_sphere_world(diffuse());
    let r = Ray::new(vi(0, 0, 0), vi(0, 0, -1));
    let c = r.color(&world, &gradient(), 0, &samples(0));
    assert_eq!((c.x.v, c.y.v, c.z.v), (0, 0, 0));
    let c2 = r.color(&world, &gradient(), -3, &samples(0));
    assert_eq!((c2.x.v, c2.y.v, c2.z.v), (0, 0, 0));
}

#[test]
fn miss_returns_the_environment_exactly() {
    let world = one_sphere_world(diffuse());
    let env = gradient();
    let r = Ray::new(vi(0, 0, 0), vi(0, 1, 0));
    let c = r.color(&world, &env, 8, &samples(8));
    let direct = env.background_color(&r);
    assert_eq!((c.x.v, c.y.v, c.z.v), (direct.x.v, direct.y.v, direct.z.v));
}

#[test]
fn single_bounce_on_diffuse_is_black() {
    // With a budget of one, the scattered ray is evaluated at depth zero
    // and contributes black, so the whole sample is black.
    let world = one_sphere_world(diffuse());
    let r = Ray::new(vi(0, 0, 0), vi(0, 0, -1));
    let c = r.color(&world, &gradient(), 1, &samples(1));
    assert_eq!((c.x.v, c.y.v, c.z.v), (0, 0, 0));
}

#[test]
fn mirror_bounce_picks_up_the_environment() {
    // A perfect mirror straight ahead reflects the ray back toward the
    // viewer; the result is the albedo times the environment behind us.
    let albedo = color_raw(SCALE, 32768, 16384);
    let world = one_sphere_world(Material::Metal(Metal::new(albedo, Fx::zero())));
    let env = gradient();
    let r = Ray::new(vi(0, 0, 0), vi(0, 0, -1));
    let c = r.color(&world, &env, 2, &samples(2));
    let behind = env.background_color(&Ray::new(vi(0, 0, -1), vi(0, 0, 1)));
    assert_eq!(c.x.v, (SCALE * behind.x.v) / SCALE);
    assert_eq!(c.y.v, (32768 * behind.y.v) / SCALE);
    assert_eq!(c.z.v, (16384 * behind.z.v) / SCALE);
}

#[test]
fn metal_absorption_is_black() {
    // A fuzzy metal struck tangentially reflects along the surface; a
    // sample perturbing the direction into the surface absorbs the ray,
    // and the whole sample is black.
    let world = one_sphere_world(Material::Metal(Metal::new(Vec3::one(), Fx::one())));
    let inward = ScatterSample::new(
        Vec3::new(Fx::zero(), Fx::zero(), Fx::from_raw(32768)),
        Fx::zero(),
    );
    let origin = Vec3::new(Fx::from_int(-1), Fx::zero(), Fx::from_raw(-32768));
    let r = Ray::new(origin, vi(1, 0, 0));
    let c = r.color(&world, &gradient(), 1, &vec![inward]);
    assert_eq!((c.x.v, c.y.v, c.z.v), (0, 0, 0));
}

#[test]
fn deep_budget_terminates() {
    let world = one_sphere_world(diffuse());
    let r = Ray::new(vi(0, 0, 0), vi(0, 0, -1));
    let c = r.color(&world, &gradient(), 50, &samples(50));
    assert!(0 <= c.x.v && c.x.v <= 2 * SCALE);
    assert!(0 <= c.y.v && c.y.v <= 2 * SCALE);
    assert!(0 <= c.z.v && c.z.v <= 2 * SCALE);
}
