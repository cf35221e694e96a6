//! Background environments and the camera.

use raytrace::camera::Camera;
use raytrace::environment::{Environment, GradientEnvironment, SkyEnvironment};
use raytrace::fixed::{Fx, SCALE};
use raytrace::ray::Ray;
use raytrace::vec3::Vec3;

fn vi(x: i64, y: i64, z: i64) -> Vec3 {
    Vec3::new(Fx::from_int(x), Fx::from_int(y), Fx::from_int(z))
}

fn color_raw(r: i128, g: i128, b: i128) -> Vec3 {
    Vec3::color(Fx::from_raw(r), Fx::from_raw(g), Fx::from_raw(b))
}

#[test]
fn gradient_straight_up_is_the_top_color() {
    let env = Environment::Gradient(GradientEnvironment::new(
        color_raw(100, 200, 300),
        color_raw(400, 500, 600),
    ));
    let up = Ray::new(vi(0, 0, 0), vi(0, 1, 0));
    let c = env.background_color(&up);
    assert_eq!((c.x.v, c.y.v, c.z.v), (100, 200, 300));
}

#[test]
fn gradient_straight_down_is_the_bottom_color() {
    let env = Environment::Gradient(GradientEnvironment::new(
        color_raw(100, 200, 300),
        color_raw(400, 500, 600),
    ));
    let down = Ray::new(vi(0, 0, 0), vi(0, -1, 0));
    let c = env.background_color(&down);
    assert_eq!((c.x.v, c.y.v, c.z.v), (400, 500, 600));
}

#[test]
fn gradient_horizontal_is_the_midpoint() {
    let env = Environment::Gradient(GradientEnvironment::new(
        color_raw(SCALE, 0, 0),
        color_raw(0, SCALE, 0),
    ));
    let level = Ray::new(vi(0, 0, 0), vi(0, 0, -1));
    let c = env.background_color(&level);
    assert_eq!((c.x.v, c.y.v, c.z.v), (SCALE / 2, SCALE / 2, 0));
}

#[test]
fn sky_sun_disk_and_plain_sky() {
    let sky = color_raw(19660, 26214, 39321);
    let sun = color_raw(SCALE, 62259, 52428);
    let env = Environment::Sky(SkyEnvironment::new(sky, sun, vi(0, 0, 1), Fx::from_raw(6554)));
    // Straight into the sun: the sun color, exactly.
    let into = Ray::new(vi(0, 0, 0), vi(0, 0, 1));
    let a = env.background_color(&into);
    assert_eq!((a.x.v, a.y.v, a.z.v), (SCALE, 62259, 52428));
    // Straight away from the sun: zero influence, the plain sky color.
    let away = Ray::new(vi(0, 0, 0), vi(0, 0, -1));
    let b = env.background_color(&away);
    assert_eq!((b.x.v, b.y.v, b.z.v), (19660, 26214, 39321));
}

#[test]
fn sky_brightens_toward_the_sun() {
    let sky = color_raw(30000, 30000, 30000);
    let sun = color_raw(SCALE, SCALE, SCALE);
    let env = Environment::Sky(SkyEnvironment::new(sky, sun, vi(0, 0, 1), Fx::from_raw(655)));
    // Perpendicular to the sun: halfway influence, ten percent brighter.
    let side = Ray::new(vi(0, 0, 0), vi(1, 0, 0));
    let c = env.background_color(&side);
    let factor = SCALE + (13107 * 32768) / SCALE;
    assert_eq!(c.x.v, (factor * 30000) / SCALE);
    assert!(c.x.v > 30000);
}

fn simple_camera() -> Camera {
    Camera::new(
        vi(0, 0, 0),
        vi(0, 0, -1),
        vi(0, 1, 0),
        Fx::from_int(90),
        Fx::one(),
        Fx::zero(),
        Fx::one(),
    )
}

#[test]
fn camera_basis_is_the_standard_frame() {
    let cam = simple_camera();
    assert_eq!((cam.w.x.v, cam.w.y.v, cam.w.z.v), (0, 0, SCALE));
    assert_eq!((cam.u.x.v, cam.u.y.v, cam.u.z.v), (SCALE, 0, 0));
    assert_eq!((cam.v.x.v, cam.v.y.v, cam.v.z.v), (0, SCALE, 0));
    assert_eq!(cam.lens_radius.v, 0);
    assert_eq!((cam.origin.x.v, cam.origin.y.v, cam.origin.z.v), (0, 0, 0));
}

#[test]
fn camera_center_ray_looks_forward() {
    // Through the viewport center the half-extents cancel exactly and the
    // ray looks along the negative depth axis at the focus distance.
    let cam = simple_camera();
    let r = cam.get_ray(Fx::from_raw(32768), Fx::from_raw(32768), &Vec3::zero());
    assert_eq!((r.origin.x.v, r.origin.y.v, r.origin.z.v), (0, 0, 0));
    assert_eq!((r.direction.x.v, r.direction.y.v), (0, 0));
    assert_eq!(r.direction.z.v, -SCALE);
}

#[test]
fn camera_viewport_is_symmetric() {
    let cam = simple_camera();
    // The corner sits at minus half of each extent, at the focus plane.
    assert_eq!(cam.lower_left_corner.x.v, -(cam.horizontal.x.v / 2));
    assert_eq!(cam.lower_left_corner.y.v, -(cam.vertical.y.v / 2));
    assert_eq!(cam.lower_left_corner.z.v, -SCALE);
    assert!(cam.horizontal.x.v > 0);
    assert!(cam.vertical.y.v > 0);
}

#[test]
fn camera_lens_offset_moves_the_origin() {
    let cam = Camera::new(
        vi(0, 0, 0),
        vi(0, 0, -1),
        vi(0, 1, 0),
        Fx::from_int(90),
        Fx::one(),
        Fx::from_int(2),
        Fx::one(),
    );
    assert_eq!(cam.lens_radius.v, SCALE);
    let disk = Vec3::new(Fx::from_raw(32768), Fx::zero(), Fx::zero());
    let r = cam.get_ray(Fx::from_raw(32768), Fx::from_raw(32768), &disk);
    // The offset is half a unit along the camera's right axis.
    assert_eq!((r.origin.x.v, r.origin.y.v, r.origin.z.v), (32768, 0, 0));
    assert_eq!(r.direction.x.v, -32768);
}
