//! Background environments: the radiance a ray receives when it escapes
//! the scene, a pure function of its direction.

use crate::fixed::{iabs, mul_val, Fx, SCALE};
use crate::ray::Ray;
use crate::trig::{cos_fx, cos_val};
use crate::vec3::{color_ok, vadd, vbounded, vdot, vscale, vunit, Vec3, V3, UNIT_OUT_LIMIT};
use vstd::prelude::*;

verus! {

/// Brightening factor applied to the sky near the sun: a fifth of a unit.
pub const SUN_BRIGHTEN: i128 = 13107;

/// Largest raw magnitude accepted for the sun's angular size.
pub const ANGLE_LIMIT: i128 = 0x10_0000;

/// A raw value clamped into the unit interval.
pub open spec fn clamp01_val(x: int) -> int {
    if x < 0 {
        0
    } else if x > SCALE {
        SCALE as int
    } else {
        x
    }
}

/// Both channels of a radiance value: nonnegative and at most two units.
pub open spec fn radiance_ok(c: V3) -> bool {
    0 <= c.x <= 2 * SCALE && 0 <= c.y <= 2 * SCALE && 0 <= c.z <= 2 * SCALE
}

/// A blend of two unit-interval colors by a unit-interval weight.
pub open spec fn blend01(t: int, a: V3, b: V3) -> V3 {
    vadd(vscale(SCALE - t, a), vscale(t, b))
}

/// A sky gradient from a bottom color to a top color by altitude.
#[derive(Clone, Copy, PartialEq, Eq, Structural, Debug)]
pub struct GradientEnvironment {
    pub sky_top: Vec3,
    pub sky_bottom: Vec3,
}

/// The gradient's radiance: the vertical component of the normalized
/// direction remapped to the unit interval selects the blend; a degenerate
/// direction gets the midpoint blend.
pub open spec fn gradient_value(e: GradientEnvironment, d: V3) -> V3 {
    let t = if vdot(d, d) < 1 {
        (SCALE as int) / 2
    } else {
        clamp01_val(mul_val((SCALE as int) / 2, vunit(d).y + SCALE))
    };
    blend01(t, e.sky_bottom.m(), e.sky_top.m())
}

impl GradientEnvironment {
    /// Both colors are unit-interval colors.
    pub open spec fn wf(self) -> bool {
        color_ok(self.sky_top.m()) && color_ok(self.sky_bottom.m())
    }

    /// A gradient from its top and bottom colors.
    pub fn new(sky_top: Vec3, sky_bottom: Vec3) -> (r: GradientEnvironment)
        ensures
            r.sky_top == sky_top,
            r.sky_bottom == sky_bottom,
    {
        GradientEnvironment { sky_top, sky_bottom }
    }
}

/// A sky with a hard sun disk and a sky color brightened near the sun.
#[derive(Clone, Copy, PartialEq, Eq, Structural, Debug)]
pub struct SkyEnvironment {
    pub sky_color: Vec3,
    pub sun_color: Vec3,
    pub sun_direction: Vec3,
    pub sun_angular_size: Fx,
}

/// The sky's radiance: the sun color inside the angular sun disk, else the
/// sky color brightened by up to a fifth with proximity to the sun; a
/// degenerate direction counts as zero alignment.
pub open spec fn sky_value(e: SkyEnvironment, d: V3) -> V3 {
    let align = if vdot(d, d) < 1 {
        0
    } else {
        vdot(vunit(d), e.sun_direction.m())
    };
    if align > cos_val(e.sun_angular_size.v as int) {
        e.sun_color.m()
    } else {
        let infl = clamp01_val((align + SCALE) / 2);
        vscale(SCALE + mul_val(SUN_BRIGHTEN as int, infl), e.sky_color.m())
    }
}

impl SkyEnvironment {
    /// Colors are unit-interval colors, the stored sun direction is
    /// normalized, and the angular size is small and nonnegative.
    pub open spec fn wf(self) -> bool {
        color_ok(self.sky_color.m()) && color_ok(self.sun_color.m()) && vbounded(
            self.sun_direction.m(),
            UNIT_OUT_LIMIT as int,
        ) && 0 <= self.sun_angular_size.v <= ANGLE_LIMIT
    }

    /// A sky from its colors, sun direction (normalized on construction)
    /// and angular sun size.
    pub fn new(sky_color: Vec3, sun_color: Vec3, sun_direction: Vec3, sun_angular_size: Fx) -> (r:
        SkyEnvironment)
        requires
            color_ok(sky_color.m()),
            color_ok(sun_color.m()),
            vbounded(sun_direction.m(), crate::vec3::UNIT_IN_LIMIT as int),
            vdot(sun_direction.m(), sun_direction.m()) >= 1,
            0 <= sun_angular_size.v <= ANGLE_LIMIT,
        ensures
            r.wf(),
            r.sky_color == sky_color,
            r.sun_color == sun_color,
            r.sun_direction.m() == vunit(sun_direction.m()),
            r.sun_angular_size == sun_angular_size,
    {
        proof {
            crate::vec3::lemma_unit_bound(sun_direction.m());
        }
        SkyEnvironment {
            sky_color,
            sun_color,
            sun_direction: sun_direction.unit_vector(),
            sun_angular_size,
        }
    }
}

/// A background environment: one of the closed set of variants.
#[derive(Clone, Copy, PartialEq, Eq, Structural, Debug)]
pub enum Environment {
    /// A vertical gradient between two sky colors.
    Gradient(GradientEnvironment),
    /// A sky color with a hard sun disk.
    Sky(SkyEnvironment),
}

/// The radiance an environment assigns to a ray direction.
pub open spec fn env_value(e: Environment, d: V3) -> V3 {
    match e {
        Environment::Gradient(g) => gradient_value(g, d),
        Environment::Sky(s) => sky_value(s, d),
    }
}

impl Environment {
    /// Whether the environment's parameters are in range.
    pub open spec fn wf(self) -> bool {
        match self {
            Environment::Gradient(g) => g.wf(),
            Environment::Sky(s) => s.wf(),
        }
    }

    /// The background radiance for a ray, a pure function of its direction;
    /// each channel lies in `[0, 2]`.
    pub fn background_color(&self, ray: &Ray) -> (c: Vec3)
        requires
            self.wf(),
            ray.wf(),
        ensures
            c.m() == env_value(*self, ray.direction.m()),
            radiance_ok(c.m()),
    {
        match self {
            Environment::Gradient(g) => {
                let t: Fx = direction_altitude(&ray.direction);
                proof {
                    lemma_blend01(t.v as int, g.sky_bottom.m(), g.sky_top.m());
                }
                let a: Vec3 = g.sky_bottom.scale(Fx { v: SCALE - t.v });
                let b: Vec3 = g.sky_top.scale(t);
                a.add(b)
            },
            Environment::Sky(s) => {
                let align: Fx = sun_alignment(&ray.direction, &s.sun_direction);
                let threshold: Fx = cos_fx(s.sun_angular_size);
                if align.v > threshold.v {
                    s.sun_color
                } else {
                    let half: i128 = (align.v + SCALE) / 2;
                    let infl: Fx = clamp01(Fx { v: half });
                    proof {
                        crate::fixed::lemma_mul_val_unit(SUN_BRIGHTEN as int, infl.v as int);
                        lemma_brighten(
                            SCALE + mul_val(SUN_BRIGHTEN as int, infl.v as int),
                            s.sky_color.m(),
                        );
                    }
                    let factor: Fx = Fx { v: SUN_BRIGHTEN }.mul(infl).add(Fx { v: SCALE });
                    s.sky_color.scale(factor)
                }
            },
        }
    }
}

/// The remapped altitude of a direction: half of one plus the normalized
/// vertical component, clamped to the unit interval; one half for a
/// degenerate direction.
fn direction_altitude(d: &Vec3) -> (t: Fx)
    requires
        vbounded(d.m(), crate::ray::DIR_LIMIT as int),
    ensures
        t.v == if vdot(d.m(), d.m()) < 1 {
            (SCALE as int) / 2
        } else {
            clamp01_val(mul_val((SCALE as int) / 2, vunit(d.m()).y + SCALE))
        },
        0 <= t.v <= SCALE,
{
    proof {
        crate::vec3::lemma_dot_bound(
            d.m(),
            d.m(),
            crate::ray::DIR_LIMIT as int,
            crate::ray::DIR_LIMIT as int,
        );
    }
    let lsq: Fx = d.length_squared();
    if lsq.v < 1 {
        Fx { v: SCALE / 2 }
    } else {
        proof {
            crate::vec3::lemma_unit_bound(d.m());
            crate::fixed::lemma_mul_val_bound(
                (SCALE as int) / 2,
                vunit(d.m()).y + SCALE,
                SCALE as int,
                2 * (UNIT_OUT_LIMIT as int),
            );
        }
        let u: Vec3 = d.unit_vector();
        let raw: Fx = Fx { v: SCALE / 2 }.mul(Fx { v: u.y.v + SCALE });
        clamp01(raw)
    }
}

/// The alignment of a direction with the unit sun direction: the dot of
/// the normalized direction with the sun direction, zero when degenerate.
fn sun_alignment(d: &Vec3, sun: &Vec3) -> (a: Fx)
    requires
        vbounded(d.m(), crate::ray::DIR_LIMIT as int),
        vbounded(sun.m(), UNIT_OUT_LIMIT as int),
    ensures
        a.v == if vdot(d.m(), d.m()) < 1 {
            0int
        } else {
            vdot(vunit(d.m()), sun.m())
        },
        iabs(a.v as int) <= 3 * ((UNIT_OUT_LIMIT as int) * (UNIT_OUT_LIMIT as int)),
{
    proof {
        crate::vec3::lemma_dot_bound(
            d.m(),
            d.m(),
            crate::ray::DIR_LIMIT as int,
            crate::ray::DIR_LIMIT as int,
        );
    }
    let lsq: Fx = d.length_squared();
    if lsq.v < 1 {
        Fx { v: 0 }
    } else {
        proof {
            crate::vec3::lemma_unit_bound(d.m());
            crate::vec3::lemma_dot_bound(
                vunit(d.m()),
                sun.m(),
                UNIT_OUT_LIMIT as int,
                UNIT_OUT_LIMIT as int,
            );
        }
        let u: Vec3 = d.unit_vector();
        u.dot(sun)
    }
}

/// A scalar clamped into the unit interval.
fn clamp01(x: Fx) -> (r: Fx)
    requires
        x.v > i128::MIN,
    ensures
        r.v == clamp01_val(x.v as int),
        0 <= r.v <= SCALE,
{
    if x.v < 0 {
        Fx { v: 0 }
    } else if x.v > SCALE {
        Fx { v: SCALE }
    } else {
        x
    }
}

/// A unit-interval blend of two unit-interval colors stays a unit-interval
/// color, and its products fit the headroom.
proof fn lemma_blend01(t: int, a: V3, b: V3)
    requires
        0 <= t <= SCALE,
        color_ok(a),
        color_ok(b),
    ensures
        color_ok(blend01(t, a, b)),
        radiance_ok(blend01(t, a, b)),
        iabs((SCALE - t) * a.x) <= crate::vec3::PROD_LIMIT,
        iabs((SCALE - t) * a.y) <= crate::vec3::PROD_LIMIT,
        iabs((SCALE - t) * a.z) <= crate::vec3::PROD_LIMIT,
        iabs(t * b.x) <= crate::vec3::PROD_LIMIT,
        iabs(t * b.y) <= crate::vec3::PROD_LIMIT,
        iabs(t * b.z) <= crate::vec3::PROD_LIMIT,
{
    crate::fixed::lemma_mul_val_unit(SCALE - t, a.x);
    crate::fixed::lemma_mul_val_unit(SCALE - t, a.y);
    crate::fixed::lemma_mul_val_unit(SCALE - t, a.z);
    crate::fixed::lemma_mul_val_unit(t, b.x);
    crate::fixed::lemma_mul_val_unit(t, b.y);
    crate::fixed::lemma_mul_val_unit(t, b.z);
    crate::fixed::lemma_abs_mul(SCALE - t, a.x, SCALE as int, SCALE as int);
    crate::fixed::lemma_abs_mul(SCALE - t, a.y, SCALE as int, SCALE as int);
    crate::fixed::lemma_abs_mul(SCALE - t, a.z, SCALE as int, SCALE as int);
    crate::fixed::lemma_abs_mul(t, b.x, SCALE as int, SCALE as int);
    crate::fixed::lemma_abs_mul(t, b.y, SCALE as int, SCALE as int);
    crate::fixed::lemma_abs_mul(t, b.z, SCALE as int, SCALE as int);
}

/// Scaling a unit-interval color by a factor of at most two units stays a
/// radiance value.
proof fn lemma_brighten(f: int, c: V3)
    requires
        0 <= f <= 2 * SCALE,
        color_ok(c),
    ensures
        radiance_ok(vscale(f, c)),
        iabs(f * c.x) <= crate::vec3::PROD_LIMIT,
        iabs(f * c.y) <= crate::vec3::PROD_LIMIT,
        iabs(f * c.z) <= crate::vec3::PROD_LIMIT,
{
    crate::fixed::lemma_mul_val_unit(f, c.x);
    crate::fixed::lemma_mul_val_unit(f, c.y);
    crate::fixed::lemma_mul_val_unit(f, c.z);
    crate::fixed::lemma_abs_mul(f, c.x, 2 * SCALE, SCALE as int);
    crate::fixed::lemma_abs_mul(f, c.y, 2 * SCALE, SCALE as int);
    crate::fixed::lemma_abs_mul(f, c.z, 2 * SCALE, SCALE as int);
}

} // verus!
