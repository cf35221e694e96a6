//! Sphere primitives and their ray intersection.
//!
//! The intersection solves the quadratic `|O + tD - C|^2 = r^2` in
//! fixed-point arithmetic and is specified exactly: the discriminant test,
//! the choice between the two roots, the hit point, and the oriented normal
//! are all pinned down by the `sphere_hit_data` specification.

use crate::fixed::{div_val, iabs, mul_val, sqrt_val, Fx, COORD_LIMIT, SCALE, SQRT_LIMIT};
use crate::hittable::{HitData, HitRecord, NORMAL_LIMIT};
use crate::material::Material;
use crate::ray::{ray_at, Ray, RayV, DIR_LIMIT};
use crate::vec3::{vbounded, vclamp, vdiv, vdot, vneg, vsub, Vec3, V3};
use vstd::prelude::*;

verus! {

/// A sphere with a center, a radius and a material.  A negative radius
/// flips the outward normal, which models hollow shells; the magnitude
/// still defines the surface.
pub struct Sphere {
    pub center: Vec3,
    pub radius: Fx,
    pub material: Material,
}

/// Origin-to-center offset used throughout the quadratic.
pub open spec fn sphere_oc(s: Sphere, r: RayV) -> V3 {
    vsub(r.origin, s.center.m())
}

/// Quadratic leading coefficient: the squared length of the direction.
pub open spec fn sphere_a(r: RayV) -> int {
    vdot(r.direction, r.direction)
}

/// Half the quadratic's linear coefficient.
pub open spec fn sphere_half_b(s: Sphere, r: RayV) -> int {
    vdot(sphere_oc(s, r), r.direction)
}

/// Quadratic constant coefficient: squared center distance minus squared
/// radius.
pub open spec fn sphere_c(s: Sphere, r: RayV) -> int {
    vdot(sphere_oc(s, r), sphere_oc(s, r)) - mul_val(s.radius.v as int, s.radius.v as int)
}

/// The quarter discriminant of the quadratic.
pub open spec fn sphere_disc(s: Sphere, r: RayV) -> int {
    mul_val(sphere_half_b(s, r), sphere_half_b(s, r)) - mul_val(sphere_a(r), sphere_c(s, r))
}

/// The hit point at a root, clamped into the coordinate range.
pub open spec fn sphere_point(r: RayV, root: int) -> V3 {
    vclamp(ray_at(r, root), COORD_LIMIT as int)
}

/// The outward normal at a root: the offset from the center divided by the
/// signed radius, clamped into the normal range.
pub open spec fn sphere_outward(s: Sphere, r: RayV, root: int) -> V3 {
    vclamp(vdiv(vsub(sphere_point(r, root), s.center.m()), s.radius.v as int), NORMAL_LIMIT as int)
}

/// The hit record produced at an accepted root: the point, the normal
/// oriented against the ray, the parameter and the struck side.
pub open spec fn sphere_make_hit(s: Sphere, r: RayV, root: int) -> HitData {
    let outward = sphere_outward(s, r, root);
    let ff = vdot(r.direction, outward) < 0;
    HitData {
        p: sphere_point(r, root),
        normal: if ff {
            outward
        } else {
            vneg(outward)
        },
        t: root,
        front_face: ff,
    }
}

/// The full intersection result: no hit for a degenerate direction, a
/// negative discriminant, or roots outside the parameter window; otherwise
/// the record at the smaller root if it lies in the window, else at the
/// larger root.
#[verifier::opaque]
pub open spec fn sphere_hit_data(s: Sphere, r: RayV, t_min: int, t_max: int) -> Option<HitData> {
    let a = sphere_a(r);
    if a <= 0 {
        None
    } else {
        let disc = sphere_disc(s, r);
        if disc < 0 {
            None
        } else {
            let sqrtd = sqrt_val(disc);
            let hb = sphere_half_b(s, r);
            let root1 = div_val(-hb - sqrtd, a);
            let root2 = div_val(-hb + sqrtd, a);
            let root = if t_min <= root1 <= t_max {
                root1
            } else {
                root2
            };
            if t_min <= root <= t_max {
                Some(sphere_make_hit(s, r, root))
            } else {
                None
            }
        }
    }
}

impl Sphere {
    /// The center is in coordinate range and the radius is nonzero and in
    /// range; the material is well-formed.
    pub open spec fn wf(self) -> bool {
        vbounded(self.center.m(), COORD_LIMIT as int) && self.radius.v != 0 && iabs(
            self.radius.v as int,
        ) <= COORD_LIMIT as int && self.material.wf()
    }

    /// A sphere from its center, radius and material.
    pub fn new(center: Vec3, radius: Fx, material: Material) -> (r: Sphere)
        ensures
            r.center == center,
            r.radius == radius,
            r.material == material,
    {
        Sphere { center, radius, material }
    }

    /// The executable mirror of `wf`, for callers that build scenes from
    /// unchecked values.
    pub fn wf_check(&self) -> (r: bool)
        ensures
            r == self.wf(),
    {
        self.center.is_bounded(COORD_LIMIT) && self.radius.v != 0 && -COORD_LIMIT <= self.radius.v
            && self.radius.v <= COORD_LIMIT && self.material.wf_check()
    }

    /// The closest intersection of the ray with this sphere inside the
    /// parameter window, exactly as `sphere_hit_data` states it.
    #[verifier::rlimit(80)]
    pub fn hit(&self, r: &Ray, t_min: Fx, t_max: Fx) -> (res: Option<HitRecord>)
        requires
            self.wf(),
            r.wf(),
            iabs(t_min.v as int) <= COORD_LIMIT,
            iabs(t_max.v as int) <= COORD_LIMIT,
        ensures
            match res {
                Some(h) => {
                    &&& Some(h.data()) == sphere_hit_data(
                        *self,
                        r.m(),
                        t_min.v as int,
                        t_max.v as int,
                    )
                    &&& h.wf()
                    &&& t_min.v <= h.t.v <= t_max.v
                    &&& vdot(r.direction.m(), h.normal.m()) <= 0
                },
                None => sphere_hit_data(*self, r.m(), t_min.v as int, t_max.v as int) is None,
            },
    {
        proof {
            reveal(sphere_hit_data);
            lemma_sphere_coeff_bounds(*self, r.m());
        }
        let oc: Vec3 = r.origin().sub(self.center);
        let a: Fx = r.direction().dot(&r.direction());
        if a.v <= 0 {
            return None;
        }
        let half_b: Fx = oc.dot(&r.direction());
        let c: Fx = oc.dot(&oc).sub(self.radius.mul(self.radius));
        let discriminant: Fx = half_b.mul(half_b).sub(a.mul(c));
        if discriminant.v < 0 {
            return None;
        }
        let sqrtd: Fx = discriminant.sqrt();
        proof {
            lemma_sphere_root_bounds(
                sphere_half_b(*self, r.m()),
                sqrtd.v as int,
                discriminant.v as int,
            );
        }
        let mut root: Fx = half_b.neg().sub(sqrtd).div(a);
        if root.v < t_min.v || t_max.v < root.v {
            root = half_b.neg().add(sqrtd).div(a);
            if root.v < t_min.v || t_max.v < root.v {
                return None;
            }
        }
        let p: Vec3 = r.at(root).clamp_components(COORD_LIMIT);
        let outward_pre: Vec3 = p.sub(self.center);
        proof {
            lemma_outward_prods(outward_pre.m());
        }
        let outward_normal: Vec3 = outward_pre.div(self.radius).clamp_components(NORMAL_LIMIT);
        let mut hit_record: HitRecord = HitRecord {
            p,
            normal: Vec3::zero(),
            t: root,
            front_face: false,
        };
        hit_record.set_face_normal(r, outward_normal);
        proof {
            if !hit_record.front_face {
                crate::vec3::lemma_vdot_neg(r.direction.m(), outward_normal.m());
            }
        }
        Some(hit_record)
    }
}

/// Rounding slack allowed for an accepted root: one square-root step and
/// one division step of error through the completed square.
pub open spec fn root_err_bound(sq: int, a: int) -> int {
    2 * sq * ((SCALE as int) * SCALE) + 2 * (sq * SCALE) * (a - 1) + (a - 1) * (a - 1)
}

/// Every reported hit parameter satisfies the intersection quadratic up to
/// explicit rounding error: completing the square, `(a t + b)^2` differs
/// from the scaled discriminant by at most one square-root rounding step
/// and one division rounding step.  This is the sense in which the hit
/// point lies on the sphere's surface.
pub proof fn lemma_hit_root_accuracy(s: Sphere, r: RayV, t_min: int, t_max: int, h: HitData)
    requires
        sphere_hit_data(s, r, t_min, t_max) == Some(h),
    ensures
        sphere_a(r) >= 1,
        sphere_disc(s, r) >= 0,
        iabs(
            (sphere_a(r) * h.t + sphere_half_b(s, r) * SCALE) * (sphere_a(r) * h.t
                + sphere_half_b(s, r) * SCALE) - sphere_disc(s, r) * (((SCALE as int) * SCALE)
                * SCALE),
        ) <= root_err_bound(sqrt_val(sphere_disc(s, r)), sphere_a(r)),
{
    reveal(sphere_hit_data);
    let a = sphere_a(r);
    let hb = sphere_half_b(s, r);
    let disc = sphere_disc(s, r);
    let sq = sqrt_val(disc);
    crate::fixed::lemma_isqrt_spec_bounds((disc * SCALE) as nat);
    assert(sq * sq <= disc * SCALE < (sq + 1) * (sq + 1));
    assert(0 <= disc * SCALE - sq * sq <= 2 * sq) by (nonlinear_arith)
        requires
            sq >= 0,
            sq * sq <= disc * SCALE < (sq + 1) * (sq + 1),
    ;
    let root1 = div_val(-hb - sq, a);
    let root2 = div_val(-hb + sq, a);
    if t_min <= root1 <= t_max {
        lemma_root_residual(a, hb, disc, sq, -hb - sq, root1);
    } else {
        lemma_root_residual(a, hb, disc, sq, -hb + sq, root2);
    }
}

/// The completed-square residual of one computed root is bounded by the
/// rounding slack.
proof fn lemma_root_residual(a: int, hb: int, disc: int, sq: int, num: int, root: int)
    requires
        a >= 1,
        sq >= 0,
        root == div_val(num, a),
        num == -hb - sq || num == -hb + sq,
        0 <= disc * SCALE - sq * sq <= 2 * sq,
    ensures
        iabs((a * root + hb * SCALE) * (a * root + hb * SCALE) - disc * (((SCALE as int) * SCALE)
            * SCALE)) <= root_err_bound(sq, a),
{
    crate::fixed::lemma_tdiv_error(num * SCALE, a);
    let d = a * root - num * SCALE;
    assert(iabs(d) <= a - 1);
    assert(a * root + hb * SCALE == (num + hb) * SCALE + d) by (nonlinear_arith)
        requires
            d == a * root - num * SCALE,
    ;
    assert(num + hb == sq || num + hb == -sq);
    assert(iabs(((num + hb) * SCALE + d) * ((num + hb) * SCALE + d) - disc * (((SCALE as int)
        * SCALE) * SCALE)) <= root_err_bound(sq, a)) by (nonlinear_arith)
        requires
            num + hb == sq || num + hb == -sq,
            iabs(d) <= a - 1,
            a >= 1,
            sq >= 0,
            0 <= disc * SCALE - sq * sq <= 2 * sq,
            SCALE == 65536,
            root_err_bound(sq, a) == 2 * sq * ((SCALE as int) * SCALE) + 2 * (sq * SCALE) * (a - 1)
                + (a - 1) * (a - 1),
    ;
}

/// Negating the radius flips the surface's polarity: the same root is hit
/// at the same point, the outward normal reverses, and so the struck side
/// flips while the stored, ray-facing normal stays the same (away from the
/// grazing case where the direction and outward normal are orthogonal).
pub proof fn lemma_radius_polarity(s: Sphere, s2: Sphere, r: RayV, t_min: int, t_max: int)
    requires
        s2.center == s.center,
        s.radius.v != 0,
        s.radius.v > i128::MIN,
        s2.radius.v == -s.radius.v,
    ensures
        sphere_c(s2, r) == sphere_c(s, r),
        sphere_disc(s2, r) == sphere_disc(s, r),
        forall|root: int| #[trigger]
            sphere_outward(s2, r, root) == vneg(sphere_outward(s, r, root)),
        forall|root: int|
            vdot(r.direction, #[trigger] sphere_outward(s, r, root)) != 0 ==> {
                &&& sphere_make_hit(s2, r, root).front_face == !sphere_make_hit(
                    s,
                    r,
                    root,
                ).front_face
                &&& sphere_make_hit(s2, r, root).normal == sphere_make_hit(s, r, root).normal
                &&& sphere_make_hit(s2, r, root).p == sphere_make_hit(s, r, root).p
                &&& sphere_make_hit(s2, r, root).t == sphere_make_hit(s, r, root).t
            },
{
    assert(mul_val(s2.radius.v as int, s2.radius.v as int) == mul_val(
        s.radius.v as int,
        s.radius.v as int,
    )) by {
        vstd::arithmetic::mul::lemma_mul_cancels_negatives(s.radius.v as int, s.radius.v as int);
    };
    assert forall|root: int| #[trigger]
        sphere_outward(s2, r, root) == vneg(sphere_outward(s, r, root)) by {
        let off = vsub(sphere_point(r, root), s.center.m());
        lemma_div_val_neg_divisor(off.x, s.radius.v as int);
        lemma_div_val_neg_divisor(off.y, s.radius.v as int);
        lemma_div_val_neg_divisor(off.z, s.radius.v as int);
    }
    assert forall|root: int|
        vdot(r.direction, #[trigger] sphere_outward(s, r, root)) != 0 implies {
        &&& sphere_make_hit(s2, r, root).front_face == !sphere_make_hit(s, r, root).front_face
        &&& sphere_make_hit(s2, r, root).normal == sphere_make_hit(s, r, root).normal
        &&& sphere_make_hit(s2, r, root).p == sphere_make_hit(s, r, root).p
        &&& sphere_make_hit(s2, r, root).t == sphere_make_hit(s, r, root).t
    } by {
        crate::vec3::lemma_vdot_neg(r.direction, sphere_outward(s, r, root));
    }
}

/// Negating the divisor negates a fixed-point quotient.
proof fn lemma_div_val_neg_divisor(a: int, b: int)
    requires
        b != 0,
    ensures
        div_val(a, -b) == -div_val(a, b),
{
    assert(iabs(-b) == iabs(b));
}

/// Bounds for the quadratic's coefficients over a well-formed sphere and
/// ray: every product fits the headroom and the discriminant is within
/// reach of the square root.
proof fn lemma_sphere_coeff_bounds(s: Sphere, r: RayV)
    requires
        vbounded(s.center.m(), COORD_LIMIT as int),
        iabs(s.radius.v as int) <= COORD_LIMIT as int,
        vbounded(r.origin, COORD_LIMIT as int),
        vbounded(r.direction, DIR_LIMIT as int),
    ensures
        crate::vec3::prods_ok(r.direction, r.direction),
        crate::vec3::prods_ok(sphere_oc(s, r), r.direction),
        crate::vec3::prods_ok(sphere_oc(s, r), sphere_oc(s, r)),
        iabs(sphere_a(r)) <= 0x4_0000_0000_0000,
        iabs(sphere_half_b(s, r)) <= 0x80_0000_0000_0000,
        iabs((s.radius.v as int) * (s.radius.v as int)) <= crate::vec3::PROD_LIMIT,
        iabs(sphere_c(s, r)) <= 0x2000_0000_0000_0000,
        iabs(sphere_half_b(s, r) * sphere_half_b(s, r)) <= crate::vec3::PROD_LIMIT,
        iabs(sphere_a(r) * sphere_c(s, r)) <= crate::vec3::PROD_LIMIT,
        iabs(sphere_disc(s, r)) <= SQRT_LIMIT,
        vbounded(sphere_oc(s, r), 0x20_0000_0000),
{
    let oc = sphere_oc(s, r);
    crate::vec3::lemma_dot_bound(r.direction, r.direction, DIR_LIMIT as int, DIR_LIMIT as int);
    crate::vec3::lemma_dot_bound(oc, r.direction, 0x20_0000_0000, DIR_LIMIT as int);
    crate::vec3::lemma_dot_bound(oc, oc, 0x20_0000_0000, 0x20_0000_0000);
    crate::fixed::lemma_mul_val_bound(
        s.radius.v as int,
        s.radius.v as int,
        COORD_LIMIT as int,
        COORD_LIMIT as int,
    );
    let hb = sphere_half_b(s, r);
    let a = sphere_a(r);
    let c = sphere_c(s, r);
    crate::fixed::lemma_mul_val_bound(hb, hb, 0x80_0000_0000_0000, 0x80_0000_0000_0000);
    crate::fixed::lemma_mul_val_bound(a, c, 0x4_0000_0000_0000, 0x2000_0000_0000_0000);
}

/// Bounds for the root numerators: the square root of the discriminant and
/// the half coefficient both fit, and the scaled numerators stay inside the
/// division headroom.
proof fn lemma_sphere_root_bounds(hb: int, sqrtd: int, disc: int)
    requires
        iabs(hb) <= 0x80_0000_0000_0000,
        0 <= disc <= SQRT_LIMIT,
        sqrtd >= 0,
        sqrtd * sqrtd <= disc * SCALE,
    ensures
        iabs(sqrtd) <= 0x100_0000_0000_0000,
        iabs((-hb - sqrtd) * SCALE) < crate::vec3::PROD_LIMIT,
        iabs((-hb + sqrtd) * SCALE) < crate::vec3::PROD_LIMIT,
{
    assert(sqrtd <= 0x100_0000_0000_0000) by (nonlinear_arith)
        requires
            sqrtd >= 0,
            sqrtd * sqrtd <= disc * SCALE,
            0 <= disc <= SQRT_LIMIT,
            SQRT_LIMIT == 0x1_0000_0000_0000_0000_0000_0000,
            SCALE == 65536,
    ;
    crate::fixed::lemma_abs_mul(-hb - sqrtd, SCALE as int, 0x180_0000_0000_0000, SCALE as int);
    crate::fixed::lemma_abs_mul(-hb + sqrtd, SCALE as int, 0x180_0000_0000_0000, SCALE as int);
}

/// The offset from the center of a clamped hit point stays inside the
/// division headroom.
proof fn lemma_outward_prods(d: V3)
    requires
        vbounded(d, 0x20_0000_0000),
    ensures
        iabs(d.x * SCALE) <= crate::vec3::PROD_LIMIT,
        iabs(d.y * SCALE) <= crate::vec3::PROD_LIMIT,
        iabs(d.z * SCALE) <= crate::vec3::PROD_LIMIT,
{
    crate::fixed::lemma_abs_mul(d.x, SCALE as int, 0x20_0000_0000, SCALE as int);
    crate::fixed::lemma_abs_mul(d.y, SCALE as int, 0x20_0000_0000, SCALE as int);
    crate::fixed::lemma_abs_mul(d.z, SCALE as int, 0x20_0000_0000, SCALE as int);
}

} // verus!
