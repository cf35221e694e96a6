//! Rays: an origin and a direction, with the point reached at a given
//! parameter.  The recursive radiance integrator lives here too, as a method
//! on rays; it is added alongside the scattering and environment modules.

use crate::environment::{env_value, radiance_ok, Environment};
use crate::fixed::{iabs, mul_val, Fx, COORD_LIMIT, SCALE};
use crate::hittable::{scan_hits, HitData, HittableList};
use crate::material::{scatter_data, ScatterSample};
use crate::sphere::Sphere;
use crate::vec3::{color_ok, vadd, vbounded, vmul, vscale, Vec3, V3};
use vstd::prelude::*;

verus! {

/// Largest raw component magnitude accepted for a ray direction: generous
/// enough for every direction the camera or a scatter event produces.
pub const DIR_LIMIT: i128 = 0x1_0000_0000;

/// Lower intersection bound used by the integrator, a thousandth of a
/// unit, which avoids self-intersection with the surface just left.
pub const HIT_EPS: i128 = 65;

/// Spec-level view of a ray.
pub ghost struct RayV {
    pub origin: V3,
    pub direction: V3,
}

/// The point reached at parameter `t` (raw value): origin plus `t` times the
/// direction.
pub open spec fn ray_at(r: RayV, t: int) -> V3 {
    vadd(r.origin, vscale(t, r.direction))
}

/// A ray with its origin and direction.
#[derive(Clone, Copy, PartialEq, Eq, Structural, Debug)]
pub struct Ray {
    pub origin: Vec3,
    pub direction: Vec3,
}

impl Ray {
    /// The spec-level view of the ray.
    pub open spec fn m(self) -> RayV {
        RayV { origin: self.origin.m(), direction: self.direction.m() }
    }

    /// Whether origin and direction lie in the ranges the intersection and
    /// shading formulas accept.
    pub open spec fn wf(self) -> bool {
        vbounded(self.origin.m(), COORD_LIMIT as int) && vbounded(
            self.direction.m(),
            DIR_LIMIT as int,
        )
    }

    /// A ray from its origin and direction.
    pub fn new(origin: Vec3, direction: Vec3) -> (r: Ray)
        ensures
            r.origin == origin,
            r.direction == direction,
    {
        Ray { origin, direction }
    }

    /// The ray's origin.
    pub fn origin(&self) -> (r: Vec3)
        ensures
            r == self.origin,
    {
        self.origin
    }

    /// The ray's direction.
    pub fn direction(&self) -> (r: Vec3)
        ensures
            r == self.direction,
    {
        self.direction
    }

    /// The point reached at parameter `t`.
    pub fn at(&self, t: Fx) -> (r: Vec3)
        requires
            self.wf(),
            iabs(t.v as int) <= COORD_LIMIT,
        ensures
            r.m() == ray_at(self.m(), t.v as int),
    {
        proof {
            lemma_ray_at_bound(self.m(), t.v as int);
        }
        self.origin.add(self.direction.scale(t))
    }

    /// The executable mirror of `wf`, for callers that must check a ray
    /// before handing it to the intersection or radiance routines.
    pub fn wf_check(&self) -> (r: bool)
        ensures
            r == self.wf(),
    {
        self.origin.is_bounded(COORD_LIMIT) && self.direction.is_bounded(DIR_LIMIT)
    }

    /// The radiance arriving along this ray: black once the bounce budget
    /// is exhausted, the environment when nothing is hit, and otherwise the
    /// scatter attenuation times the radiance of the scattered ray, with
    /// absorption yielding black.  One scatter sample is consumed per
    /// bounce, taken from the end of the sample list.
    pub fn color(&self, world: &HittableList, env: &Environment, recursion_limit: i32, samples: &Vec<
        ScatterSample,
    >) -> (c: Vec3)
        requires
            self.wf(),
            world.wf(),
            env.wf(),
            recursion_limit <= samples@.len(),
            forall|i: int| 0 <= i < samples@.len() ==> (#[trigger] samples@[i]).wf(),
        ensures
            c.m() == color_spec(
                self.m(),
                world.objects@,
                *env,
                if recursion_limit <= 0 {
                    0nat
                } else {
                    recursion_limit as nat
                },
                samples@,
            ),
            recursion_limit <= 0 ==> c.m() == (V3 { x: 0int, y: 0int, z: 0int }),
            radiance_ok(c.m()),
        decreases recursion_limit,
    {
        proof {
            reveal(color_spec);
        }
        if recursion_limit <= 0 {
            return Vec3::zero();
        }
        match world.hit(self, Fx { v: HIT_EPS }, Fx { v: COORD_LIMIT }) {
            None => env.background_color(self),
            Some((record, idx)) => {
                let sample: ScatterSample = samples[(recursion_limit - 1) as usize];
                proof {
                    assert(world.objects@[idx as int].wf());
                }
                match world.objects[idx].material.scatter(self, &record, &sample) {
                    None => Vec3::zero(),
                    Some((scattered, attenuation)) => {
                        let rec: Vec3 = scattered.color(world, env, recursion_limit - 1, samples);
                        proof {
                            lemma_attenuate(attenuation.m(), rec.m());
                        }
                        attenuation.mul(rec)
                    },
                }
            },
        }
    }
}

/// The radiance along a ray: black at a zero budget; the environment on a
/// miss; on a hit, the attenuation times the radiance of the scattered
/// ray, or black on absorption.  The sample for each bounce is the one at
/// index one less than the remaining budget.
#[verifier::opaque]
pub open spec fn color_spec(
    ray: RayV,
    objects: Seq<Sphere>,
    env: Environment,
    limit: nat,
    samples: Seq<ScatterSample>,
) -> V3
    decreases limit,
{
    if limit == 0 {
        V3 { x: 0int, y: 0int, z: 0int }
    } else {
        match scan_hits(objects, 0, ray, HIT_EPS as int, COORD_LIMIT as int, None) {
            None => env_value(env, ray.direction),
            Some((h, idx)) => match scatter_data(
                objects[idx].material,
                ray,
                h,
                samples[limit - 1],
            ) {
                None => V3 { x: 0int, y: 0int, z: 0int },
                Some((sray, att)) => vmul(
                    att,
                    color_spec(sray, objects, env, (limit - 1) as nat, samples),
                ),
            },
        }
    }
}

/// An exhausted bounce budget yields exactly black, whatever the scene,
/// environment, ray and samples.
pub proof fn lemma_color_depth_zero(
    ray: RayV,
    objects: Seq<Sphere>,
    env: Environment,
    samples: Seq<ScatterSample>,
)
    ensures
        color_spec(ray, objects, env, 0, samples) == (V3 { x: 0int, y: 0int, z: 0int }),
{
    reveal(color_spec);
}

/// A ray that hits nothing yields exactly the environment's radiance for
/// its direction, with no recursion, at any positive budget.
pub proof fn lemma_color_miss(
    ray: RayV,
    objects: Seq<Sphere>,
    env: Environment,
    limit: nat,
    samples: Seq<ScatterSample>,
)
    requires
        limit > 0,
        scan_hits(objects, 0, ray, HIT_EPS as int, COORD_LIMIT as int, None) is None,
    ensures
        color_spec(ray, objects, env, limit, samples) == env_value(env, ray.direction),
{
    reveal(color_spec);
}

/// A hit whose material absorbs the ray yields exactly black.
pub proof fn lemma_color_absorbed(
    ray: RayV,
    objects: Seq<Sphere>,
    env: Environment,
    limit: nat,
    samples: Seq<ScatterSample>,
    h: HitData,
    idx: int,
)
    requires
        limit > 0,
        scan_hits(objects, 0, ray, HIT_EPS as int, COORD_LIMIT as int, None) == Some((h, idx)),
        scatter_data(objects[idx].material, ray, h, samples[limit - 1]) is None,
    ensures
        color_spec(ray, objects, env, limit, samples) == (V3 { x: 0int, y: 0int, z: 0int }),
{
    reveal(color_spec);
}

/// Attenuating a radiance value by a unit-interval color keeps it a
/// radiance value, with all products inside the headroom.
proof fn lemma_attenuate(att: V3, c: V3)
    requires
        color_ok(att),
        radiance_ok(c),
    ensures
        radiance_ok(vmul(att, c)),
        crate::vec3::prods_ok(att, c),
{
    lemma_attenuate_channel(att.x, c.x);
    lemma_attenuate_channel(att.y, c.y);
    lemma_attenuate_channel(att.z, c.z);
}

/// One channel of an attenuated radiance value stays in range.
proof fn lemma_attenuate_channel(a: int, c: int)
    requires
        0 <= a <= SCALE,
        0 <= c <= 2 * SCALE,
    ensures
        0 <= mul_val(a, c) <= 2 * SCALE,
        iabs(a * c) <= crate::vec3::PROD_LIMIT,
{
    crate::fixed::lemma_mul_val_unit(c, a);
    crate::fixed::lemma_mul_val_comm(a, c);
    crate::fixed::lemma_abs_mul(a, c, SCALE as int, 2 * SCALE);
}

/// The point reached along a well-formed ray at a bounded parameter stays
/// comfortably inside the arithmetic headroom.
pub proof fn lemma_ray_at_bound(r: RayV, t: int)
    requires
        vbounded(r.origin, COORD_LIMIT as int),
        vbounded(r.direction, DIR_LIMIT as int),
        iabs(t) <= COORD_LIMIT as int,
    ensures
        vbounded(vscale(t, r.direction), 0x10_0000_0000_0000_0000),
        vbounded(ray_at(r, t), 0x20_0000_0000_0000_0000),
        iabs(t * r.direction.x) <= crate::vec3::PROD_LIMIT,
        iabs(t * r.direction.y) <= crate::vec3::PROD_LIMIT,
        iabs(t * r.direction.z) <= crate::vec3::PROD_LIMIT,
{
    lemma_scale_comp(t, r.direction.x);
    lemma_scale_comp(t, r.direction.y);
    lemma_scale_comp(t, r.direction.z);
}

/// One component of the scaled direction is bounded by the product of the
/// parameter and direction bounds.
proof fn lemma_scale_comp(t: int, d: int)
    requires
        iabs(t) <= COORD_LIMIT as int,
        iabs(d) <= DIR_LIMIT as int,
    ensures
        iabs(t * d) <= 0x10_0000_0000_0000_0000,
        iabs(t * d) <= crate::vec3::PROD_LIMIT,
        iabs(mul_val(t, d)) <= 0x10_0000_0000_0000_0000,
{
    crate::fixed::lemma_mul_val_bound(t, d, COORD_LIMIT as int, DIR_LIMIT as int);
}

} // verus!
