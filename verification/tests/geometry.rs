//! Sphere intersection and the closest-hit scan over the scene.

use raytrace::fixed::{Fx, COORD_LIMIT, SCALE};
use raytrace::hittable::{HitRecord, HittableList};
use raytrace::material::{Lambertian, Material};
use raytrace::ray::{Ray, HIT_EPS};
use raytrace::sphere::Sphere;
use raytrace::vec3::Vec3;

fn vi(x: i64, y: i64, z: i64) -> Vec3 {
    Vec3::new(Fx::from_int(x), Fx::from_int(y), Fx::from_int(z))
}

fn gray() -> Material {
    Material::Lambertian(Lambertian::from_color(Vec3::color(
        Fx::from_raw(32768),
        Fx::from_raw(32768),
        Fx::from_raw(32768),
    )))
}

fn head_on_ray() -> Ray {
    Ray::new(vi(0, 0, 0), vi(0, 0, -1))
}

#[test]
fn head_on_unit_sphere_hit() {
    // A ray aimed straight at a sphere of radius one half at (0,0,-1)
    // reports the hit at t = 0.5 and point (0, 0, -0.5), exactly.
    let s = Sphere::new(vi(0, 0, -1), Fx::from_raw(32768), gray());
    let hit = s.hit(&head_on_ray(), Fx::from_raw(HIT_EPS), Fx::from_raw(COORD_LIMIT));
    let h = hit.expect("the ray points at the sphere");
    assert!(h.t.v > 0);
    assert_eq!(h.t.v, 32768);
    assert_eq!((h.p.x.v, h.p.y.v, h.p.z.v), (0, 0, -32768));
    assert_eq!((h.normal.x.v, h.normal.y.v, h.normal.z.v), (0, 0, SCALE));
    assert!(h.front_face);
}

#[test]
fn hit_point_lies_on_the_surface() {
    // |P - C| equals the radius exactly for the head-on hit.
    let s = Sphere::new(vi(0, 0, -1), Fx::from_raw(32768), gray());
    let hit = s.hit(&head_on_ray(), Fx::from_raw(HIT_EPS), Fx::from_raw(COORD_LIMIT));
    let h = hit.unwrap();
    let off = h.p.sub(vi(0, 0, -1));
    assert_eq!(off.length().v, 32768);
    // The normal has unit length and points against the incoming ray.
    assert_eq!(h.normal.length().v, SCALE);
    assert!(h.normal.dot(&head_on_ray().direction).v <= 0);
}

#[test]
fn negative_radius_flips_the_face() {
    // A negated radius flips the reported side; the stored normal still
    // points toward the ray origin.
    let s = Sphere::new(vi(0, 0, -1), Fx::from_raw(-32768), gray());
    let hit = s.hit(&head_on_ray(), Fx::from_raw(HIT_EPS), Fx::from_raw(COORD_LIMIT));
    let h = hit.unwrap();
    assert_eq!(h.t.v, 32768);
    assert!(!h.front_face);
    assert_eq!((h.normal.x.v, h.normal.y.v, h.normal.z.v), (0, 0, SCALE));
}

#[test]
fn ray_from_inside_hits_back_face() {
    // From the center of a unit sphere the far root is taken and the back
    // face is reported.
    let s = Sphere::new(vi(0, 0, 0), Fx::from_int(1), gray());
    let hit = s.hit(&head_on_ray(), Fx::from_raw(HIT_EPS), Fx::from_raw(COORD_LIMIT));
    let h = hit.unwrap();
    assert_eq!(h.t.v, SCALE);
    assert!(!h.front_face);
    assert_eq!((h.normal.x.v, h.normal.y.v, h.normal.z.v), (0, 0, SCALE));
}

#[test]
fn miss_returns_none() {
    let s = Sphere::new(vi(0, 0, -1), Fx::from_raw(32768), gray());
    let up = Ray::new(vi(0, 0, 0), vi(0, 1, 0));
    assert!(s.hit(&up, Fx::from_raw(HIT_EPS), Fx::from_raw(COORD_LIMIT)).is_none());
}

#[test]
fn sphere_behind_the_origin_is_not_hit() {
    let s = Sphere::new(vi(0, 0, 5), Fx::from_raw(32768), gray());
    assert!(
        s.hit(&head_on_ray(), Fx::from_raw(HIT_EPS), Fx::from_raw(COORD_LIMIT)).is_none()
    );
}

#[test]
fn list_returns_the_closest_hit() {
    let mut world = HittableList::new();
    world.add(Sphere::new(vi(0, 0, -3), Fx::from_raw(32768), gray()));
    world.add(Sphere::new(vi(0, 0, -1), Fx::from_raw(32768), gray()));
    let res = world.hit(&head_on_ray(), Fx::from_raw(HIT_EPS), Fx::from_raw(COORD_LIMIT));
    let (h, idx) = res.unwrap();
    assert_eq!(idx, 1);
    assert_eq!(h.t.v, 32768);
}

#[test]
fn list_order_does_not_change_the_winner() {
    let mut world = HittableList::new();
    world.add(Sphere::new(vi(0, 0, -1), Fx::from_raw(32768), gray()));
    world.add(Sphere::new(vi(0, 0, -3), Fx::from_raw(32768), gray()));
    let res = world.hit(&head_on_ray(), Fx::from_raw(HIT_EPS), Fx::from_raw(COORD_LIMIT));
    let (h, idx) = res.unwrap();
    assert_eq!(idx, 0);
    assert_eq!(h.t.v, 32768);
}

#[test]
fn empty_list_misses() {
    let world = HittableList::new();
    assert!(
        world.hit(&head_on_ray(), Fx::from_raw(HIT_EPS), Fx::from_raw(COORD_LIMIT)).is_none()
    );
}

#[test]
fn set_face_normal_orients_against_the_ray() {
    let mut rec = HitRecord {
        p: vi(0, 0, 0),
        normal: Vec3::zero(),
        t: Fx::zero(),
        front_face: false,
    };
    let r = head_on_ray();
    // Outward normal facing the ray: kept, front face.
    rec.set_face_normal(&r, vi(0, 0, 1));
    assert!(rec.front_face);
    assert_eq!(rec.normal.z.v, SCALE);
    // Outward normal along the ray: flipped, back face.
    rec.set_face_normal(&r, vi(0, 0, -1));
    assert!(!rec.front_face);
    assert_eq!(rec.normal.z.v, SCALE);
}
