//! Materials and their scattering laws.
//!
//! A material maps an incoming ray and a hit record to an outgoing ray and
//! an attenuation color, or to absorption.  Randomness is supplied by the
//! caller as a scatter sample (a point inside the unit sphere and a uniform
//! coin), so each scatter call is a deterministic, exactly specified
//! computation.

use crate::fixed::{div_val, iabs, mul_val, sqrt_val, Fx, SCALE};
use crate::hittable::{HitData, HitRecord};
use crate::ray::{Ray, RayV};
use crate::texture::{tex_value, Texture};
use crate::vec3::{
    color_ok, vadd, vbounded, vdot, vneg, vscale, vsub, vunit, Vec3, V3, UNIT_OUT_LIMIT,
};
use vstd::prelude::*;

verus! {

/// Largest raw magnitude accepted for the refraction ratio.
pub const RATIO_LIMIT: i128 = 0x8_0000;

/// Smallest raw refractive index accepted for a dielectric: a quarter.
pub const IOR_MIN: i128 = 16384;

/// Largest raw refractive index accepted for a dielectric: four.
pub const IOR_MAX: i128 = 262144;

/// The random inputs one scatter call may consume: a point inside the unit
/// sphere and a uniform coin in `[0, 1)`.
#[derive(Clone, Copy, PartialEq, Eq, Structural, Debug)]
pub struct ScatterSample {
    pub in_sphere: Vec3,
    pub coin: Fx,
}

impl ScatterSample {
    /// The point lies inside the unit sphere, is not vanishingly small, and
    /// the coin lies in the unit interval.
    pub open spec fn wf(self) -> bool {
        vbounded(self.in_sphere.m(), SCALE as int) && 1 <= vdot(self.in_sphere.m(), self.in_sphere.m())
            < (SCALE as int) * (SCALE as int) && 0 <= self.coin.v < SCALE
    }

    /// A sample from its parts.
    pub fn new(in_sphere: Vec3, coin: Fx) -> (r: ScatterSample)
        ensures
            r.in_sphere == in_sphere,
            r.coin == coin,
    {
        ScatterSample { in_sphere, coin }
    }

    /// The executable mirror of `wf`, for callers that draw samples.
    pub fn wf_check(&self) -> (r: bool)
        ensures
            r == self.wf(),
    {
        if !self.in_sphere.is_bounded(SCALE) {
            return false;
        }
        proof {
            crate::vec3::lemma_dot_bound(
                self.in_sphere.m(),
                self.in_sphere.m(),
                SCALE as int,
                SCALE as int,
            );
        }
        let lsq: Fx = self.in_sphere.length_squared();
        1 <= lsq.v && lsq.v < SCALE * SCALE && 0 <= self.coin.v && self.coin.v < SCALE
    }
}

/// The mirror of `v` about the normal `n`: `v - 2 (v . n) n`.
pub open spec fn reflect_val(v: V3, n: V3) -> V3 {
    vsub(v, vscale(2 * vdot(v, n), n))
}

/// Schlick's reflectance approximation: `r0 + (1 - r0)(1 - cos)^5` with
/// `r0 = ((1 - ior) / (1 + ior))^2`.
pub open spec fn reflectance_val(cosine: int, ref_idx: int) -> int {
    let q = div_val(SCALE - ref_idx, SCALE + ref_idx);
    let r0 = mul_val(q, q);
    let x = SCALE - cosine;
    let x5 = mul_val(x, mul_val(x, mul_val(x, mul_val(x, x))));
    r0 + mul_val(SCALE - r0, x5)
}

/// The refracted direction by the perpendicular/parallel decomposition,
/// normalized when it is not degenerate.
pub open spec fn refract_val(uv: V3, n: V3, ratio: int) -> V3 {
    let u = vunit(uv);
    let nn = vunit(n);
    let cos = crate::vec3::sclamp(vdot(vneg(u), nn), SCALE as int);
    let perp = vscale(ratio, vadd(u, vscale(cos, nn)));
    let par = vscale(-sqrt_val(iabs(SCALE - vdot(perp, perp))), nn);
    let s = vadd(perp, par);
    if vdot(s, s) >= 1 {
        vunit(s)
    } else {
        s
    }
}

/// The mirror of `v` about the normal `n`, for a unit-scale incoming
/// direction and a normal-scale surface normal.
pub fn reflect(v: &Vec3, n: &Vec3) -> (r: Vec3)
    requires
        vbounded(v.m(), 0x200_0000),
        vbounded(n.m(), crate::hittable::NORMAL_LIMIT as int),
    ensures
        r.m() == reflect_val(v.m(), n.m()),
        vbounded(r.m(), 0x8000_0000),
{
    proof {
        crate::vec3::lemma_dot_bound(
            v.m(),
            n.m(),
            0x200_0000,
            crate::hittable::NORMAL_LIMIT as int,
        );
        lemma_reflect_bounds(v.m(), n.m(), vdot(v.m(), n.m()));
    }
    let d: Fx = v.dot(n);
    v.sub(n.scale(Fx { v: 2 * d.v }))
}

/// Bounds for the reflection formula: the scaled normal term and the final
/// difference stay well inside the arithmetic headroom.
proof fn lemma_reflect_bounds(v: V3, n: V3, d: int)
    requires
        vbounded(v, 0x200_0000),
        vbounded(n, crate::hittable::NORMAL_LIMIT as int),
        iabs(d) <= 0x1000_0000,
    ensures
        iabs((2 * d) * n.x) <= crate::vec3::PROD_LIMIT,
        iabs((2 * d) * n.y) <= crate::vec3::PROD_LIMIT,
        iabs((2 * d) * n.z) <= crate::vec3::PROD_LIMIT,
        vbounded(vscale(2 * d, n), 0x4100_0000),
        vbounded(vsub(v, vscale(2 * d, n)), 0x8000_0000),
{
    crate::fixed::lemma_mul_val_bound(2 * d, n.x, 0x2000_0000, 0x20000);
    crate::fixed::lemma_mul_val_bound(2 * d, n.y, 0x2000_0000, 0x20000);
    crate::fixed::lemma_mul_val_bound(2 * d, n.z, 0x2000_0000, 0x20000);
}

/// Schlick's reflectance approximation.  For a cosine in the unit interval
/// and a refractive index of at least one raw unit, the result lies in the
/// unit interval.
pub fn reflectance(cosine: Fx, ref_idx: Fx) -> (r: Fx)
    requires
        iabs(cosine.v as int) <= 0x100_0000,
        1 <= ref_idx.v <= 0x100_0000,
    ensures
        r.v == reflectance_val(cosine.v as int, ref_idx.v as int),
        0 <= cosine.v <= SCALE ==> 0 <= r.v <= SCALE,
{
    proof {
        lemma_reflectance_bounds(cosine.v as int, ref_idx.v as int);
    }
    let q: Fx = Fx { v: SCALE - ref_idx.v }.div(Fx { v: SCALE + ref_idx.v });
    proof {
        crate::fixed::lemma_abs_mul(q.v as int, q.v as int, SCALE as int, SCALE as int);
    }
    let r0: Fx = q.mul(q);
    let x: Fx = Fx { v: SCALE - cosine.v };
    proof {
        lemma_pow5_chain(x.v as int);
    }
    let x2: Fx = x.mul(x);
    let x3: Fx = x.mul(x2);
    let x4: Fx = x.mul(x3);
    let x5: Fx = x.mul(x4);
    proof {
        crate::fixed::lemma_abs_mul(
            SCALE - r0.v,
            x5.v as int,
            2 * SCALE,
            0x2_0000_0000_0000_0000,
        );
    }
    Fx { v: r0.v }.add(Fx { v: SCALE - r0.v }.mul(x5))
}

/// Magnitude bounds along the fifth-power chain for a base within half a
/// unit of magnitude of one.
proof fn lemma_pow5_chain(x: int)
    requires
        iabs(x) <= 0x200_0000,
    ensures
        iabs(x * x) <= crate::vec3::PROD_LIMIT,
        iabs(mul_val(x, x)) <= 0x8_0000_0000,
        iabs(x * mul_val(x, x)) <= crate::vec3::PROD_LIMIT,
        iabs(mul_val(x, mul_val(x, x))) <= 0x2000_0000_0000,
        iabs(x * mul_val(x, mul_val(x, x))) <= crate::vec3::PROD_LIMIT,
        iabs(mul_val(x, mul_val(x, mul_val(x, x)))) <= 0x80_0000_0000_0000,
        iabs(x * mul_val(x, mul_val(x, mul_val(x, x)))) <= crate::vec3::PROD_LIMIT,
        iabs(mul_val(x, mul_val(x, mul_val(x, mul_val(x, x))))) <= 0x2_0000_0000_0000_0000,
{
    crate::fixed::lemma_mul_val_bound(x, x, 0x200_0000, 0x200_0000);
    let m1 = mul_val(x, x);
    crate::fixed::lemma_mul_val_bound(x, m1, 0x200_0000, 0x8_0000_0000);
    let m2 = mul_val(x, m1);
    crate::fixed::lemma_mul_val_bound(x, m2, 0x200_0000, 0x2000_0000_0000);
    let m3 = mul_val(x, m2);
    crate::fixed::lemma_mul_val_bound(x, m3, 0x200_0000, 0x80_0000_0000_0000);
}

/// Bounds for the Schlick formula: the quotient has magnitude at most one,
/// its square lies in the unit interval, and for a unit-interval cosine the
/// whole expression stays in the unit interval.
proof fn lemma_reflectance_bounds(cosine: int, ref_idx: int)
    requires
        iabs(cosine) <= 0x100_0000,
        1 <= ref_idx <= 0x100_0000,
    ensures
        iabs(div_val(SCALE - ref_idx, SCALE + ref_idx)) <= SCALE,
        iabs((SCALE - ref_idx) * SCALE) <= 0x100_0000 * (SCALE as int),
        iabs((SCALE - ref_idx) * SCALE) < 0x1000_0000_0000_0000_0000_0000_0000_0000,
        0 <= mul_val(
            div_val(SCALE - ref_idx, SCALE + ref_idx),
            div_val(SCALE - ref_idx, SCALE + ref_idx),
        ) <= SCALE,
        0 <= cosine <= SCALE ==> {
            let r0 = mul_val(
                div_val(SCALE - ref_idx, SCALE + ref_idx),
                div_val(SCALE - ref_idx, SCALE + ref_idx),
            );
            let x = SCALE - cosine;
            let x5 = mul_val(x, mul_val(x, mul_val(x, mul_val(x, x))));
            0 <= x5 <= SCALE && 0 <= r0 + mul_val(SCALE - r0, x5) <= SCALE
        },
{
    let q = div_val(SCALE - ref_idx, SCALE + ref_idx);
    crate::fixed::lemma_abs_mul(
        SCALE - ref_idx,
        SCALE as int,
        0x100_0000,
        SCALE as int,
    );
    assert(iabs((SCALE - ref_idx) * SCALE) <= (SCALE + ref_idx) * SCALE) by (nonlinear_arith)
        requires
            1 <= ref_idx,
            SCALE == 65536,
            iabs((SCALE - ref_idx) * SCALE) == iabs(SCALE - (ref_idx as int)) * SCALE,
    ;
    assert(iabs((SCALE - ref_idx) * SCALE) == iabs(SCALE - (ref_idx as int)) * SCALE) by {
        if ref_idx <= SCALE {
            vstd::arithmetic::mul::lemma_mul_nonnegative(SCALE - ref_idx, SCALE as int);
        } else {
            vstd::arithmetic::mul::lemma_mul_unary_negation(SCALE - ref_idx, SCALE as int);
            vstd::arithmetic::mul::lemma_mul_nonnegative(ref_idx - SCALE, SCALE as int);
        }
    };
    crate::fixed::lemma_tdiv_bound((SCALE - ref_idx) * SCALE, SCALE + ref_idx, SCALE as int);
    crate::fixed::lemma_square_nonneg(q);
    crate::fixed::lemma_abs_mul(q, q, SCALE as int, SCALE as int);
    vstd::arithmetic::div_mod::lemma_div_pos_is_pos(q * q, SCALE as int);
    crate::fixed::lemma_tdiv_bound(q * q, SCALE as int, SCALE as int);
    let r0 = mul_val(q, q);
    if 0 <= cosine <= SCALE {
        let x = SCALE - cosine;
        let x2 = mul_val(x, x);
        crate::fixed::lemma_mul_val_unit(x, x);
        let x3 = mul_val(x, x2);
        crate::fixed::lemma_mul_val_unit(x, x2);
        let x4 = mul_val(x, x3);
        crate::fixed::lemma_mul_val_unit(x, x3);
        let x5 = mul_val(x, x4);
        crate::fixed::lemma_mul_val_unit(x, x4);
        crate::fixed::lemma_mul_val_unit(SCALE - r0, x5);
    }
}

/// The refracted direction for an incoming direction, surface normal and
/// refraction ratio.
pub fn refract(uv: &Vec3, n: &Vec3, etai_over_etat: Fx) -> (r: Vec3)
    requires
        vbounded(uv.m(), crate::ray::DIR_LIMIT as int),
        vbounded(n.m(), crate::hittable::NORMAL_LIMIT as int),
        vdot(uv.m(), uv.m()) >= 1,
        vdot(n.m(), n.m()) >= 1,
        0 < etai_over_etat.v <= RATIO_LIMIT,
    ensures
        r.m() == refract_val(uv.m(), n.m(), etai_over_etat.v as int),
        vbounded(r.m(), UNIT_OUT_LIMIT as int),
{
    proof {
        crate::vec3::lemma_unit_in_prods(uv.m());
        crate::vec3::lemma_unit_bound(uv.m());
        crate::vec3::lemma_unit_in_prods(n.m());
        crate::vec3::lemma_unit_bound(n.m());
    }
    let u: Vec3 = uv.unit_vector();
    let nn: Vec3 = n.unit_vector();
    proof {
        crate::vec3::lemma_dot_bound(
            vneg(u.m()),
            nn.m(),
            UNIT_OUT_LIMIT as int,
            UNIT_OUT_LIMIT as int,
        );
        crate::vec3::lemma_vdot_neg(nn.m(), u.m());
        crate::vec3::lemma_vdot_neg(u.m(), nn.m());
    }
    let d: Fx = u.neg().dot(&nn);
    let cos: Fx = if d.v > SCALE {
        Fx { v: SCALE }
    } else if d.v < -SCALE {
        Fx { v: -SCALE }
    } else {
        d
    };
    proof {
        lemma_refract_bounds(u.m(), nn.m(), cos.v as int, etai_over_etat.v as int);
    }
    let inner: Vec3 = u.add(nn.scale(cos));
    let perp: Vec3 = inner.scale(etai_over_etat);
    let lsq: Fx = perp.length_squared();
    let diff: Fx = Fx { v: SCALE - lsq.v }.abs();
    let sd: Fx = diff.sqrt();
    proof {
        lemma_refract_par_bounds(perp.m(), nn.m(), sd.v as int, diff.v as int);
    }
    let par: Vec3 = nn.scale(Fx { v: -sd.v });
    let s: Vec3 = perp.add(par);
    let slsq: Fx = s.length_squared();
    if 1 <= slsq.v {
        proof {
            crate::vec3::lemma_unit_bound(s.m());
        }
        s.unit_vector()
    } else {
        proof {
            lemma_small_vector(s.m());
        }
        s
    }
}

/// Bounds for the perpendicular part of the refraction formula.
proof fn lemma_refract_bounds(u: V3, nn: V3, cos: int, ratio: int)
    requires
        vbounded(u, UNIT_OUT_LIMIT as int),
        vbounded(nn, UNIT_OUT_LIMIT as int),
        iabs(cos) <= SCALE as int,
        0 < ratio <= RATIO_LIMIT as int,
    ensures
        iabs(cos * nn.x) <= crate::vec3::PROD_LIMIT,
        iabs(cos * nn.y) <= crate::vec3::PROD_LIMIT,
        iabs(cos * nn.z) <= crate::vec3::PROD_LIMIT,
        vbounded(vadd(u, vscale(cos, nn)), 0x400_0000),
        iabs(ratio * vadd(u, vscale(cos, nn)).x) <= crate::vec3::PROD_LIMIT,
        iabs(ratio * vadd(u, vscale(cos, nn)).y) <= crate::vec3::PROD_LIMIT,
        iabs(ratio * vadd(u, vscale(cos, nn)).z) <= crate::vec3::PROD_LIMIT,
        vbounded(vscale(ratio, vadd(u, vscale(cos, nn))), 0x2000_0000),
        crate::vec3::prods_ok(
            vscale(ratio, vadd(u, vscale(cos, nn))),
            vscale(ratio, vadd(u, vscale(cos, nn))),
        ),
        0 <= vdot(
            vscale(ratio, vadd(u, vscale(cos, nn))),
            vscale(ratio, vadd(u, vscale(cos, nn))),
        ) <= 0x2000_0000_0000,
{
    crate::fixed::lemma_mul_val_bound(cos, nn.x, SCALE as int, UNIT_OUT_LIMIT as int);
    crate::fixed::lemma_mul_val_bound(cos, nn.y, SCALE as int, UNIT_OUT_LIMIT as int);
    crate::fixed::lemma_mul_val_bound(cos, nn.z, SCALE as int, UNIT_OUT_LIMIT as int);
    crate::fixed::lemma_tdiv_bound(cos * nn.x, SCALE as int, UNIT_OUT_LIMIT as int);
    crate::fixed::lemma_tdiv_bound(cos * nn.y, SCALE as int, UNIT_OUT_LIMIT as int);
    crate::fixed::lemma_tdiv_bound(cos * nn.z, SCALE as int, UNIT_OUT_LIMIT as int);
    let inner = vadd(u, vscale(cos, nn));
    crate::fixed::lemma_mul_val_bound(ratio, inner.x, RATIO_LIMIT as int, 0x400_0000);
    crate::fixed::lemma_mul_val_bound(ratio, inner.y, RATIO_LIMIT as int, 0x400_0000);
    crate::fixed::lemma_mul_val_bound(ratio, inner.z, RATIO_LIMIT as int, 0x400_0000);
    crate::fixed::lemma_tdiv_bound(ratio * inner.x, SCALE as int, 0x2000_0000);
    crate::fixed::lemma_tdiv_bound(ratio * inner.y, SCALE as int, 0x2000_0000);
    crate::fixed::lemma_tdiv_bound(ratio * inner.z, SCALE as int, 0x2000_0000);
    let perp = vscale(ratio, inner);
    crate::vec3::lemma_dot_bound(perp, perp, 0x2000_0000, 0x2000_0000);
    crate::vec3::lemma_vdot_self_nonneg(perp);
}

/// Bounds for the parallel part of the refraction formula and their sum.
proof fn lemma_refract_par_bounds(perp: V3, nn: V3, sd: int, diff: int)
    requires
        vbounded(perp, 0x2000_0000),
        vbounded(nn, UNIT_OUT_LIMIT as int),
        0 <= diff,
        sd >= 0,
        sd * sd <= diff * SCALE,
        diff <= 0x4000_0000_0000,
    ensures
        iabs(sd) <= 0x1_0000_0000,
        iabs((-sd) * nn.x) <= crate::vec3::PROD_LIMIT,
        iabs((-sd) * nn.y) <= crate::vec3::PROD_LIMIT,
        iabs((-sd) * nn.z) <= crate::vec3::PROD_LIMIT,
        vbounded(vscale(-sd, nn), 0x200_0000_0000),
        vbounded(vadd(perp, vscale(-sd, nn)), 0x400_0000_0000),
        vbounded(vadd(perp, vscale(-sd, nn)), crate::vec3::UNIT_IN_LIMIT as int),
        crate::vec3::prods_ok(vadd(perp, vscale(-sd, nn)), vadd(perp, vscale(-sd, nn))),
{
    assert(iabs(sd) <= 0x1_0000_0000) by (nonlinear_arith)
        requires
            sd >= 0,
            sd * sd <= diff * SCALE,
            0 <= diff <= 0x4000_0000_0000,
            SCALE == 65536,
    ;
    crate::fixed::lemma_mul_val_bound(-sd, nn.x, 0x1_0000_0000, UNIT_OUT_LIMIT as int);
    crate::fixed::lemma_mul_val_bound(-sd, nn.y, 0x1_0000_0000, UNIT_OUT_LIMIT as int);
    crate::fixed::lemma_mul_val_bound(-sd, nn.z, 0x1_0000_0000, UNIT_OUT_LIMIT as int);
    crate::fixed::lemma_tdiv_bound((-sd) * nn.x, SCALE as int, 0x200_0000_0000);
    crate::fixed::lemma_tdiv_bound((-sd) * nn.y, SCALE as int, 0x200_0000_0000);
    crate::fixed::lemma_tdiv_bound((-sd) * nn.z, SCALE as int, 0x200_0000_0000);
    let s = vadd(perp, vscale(-sd, nn));
    crate::vec3::lemma_dot_bound(s, s, 0x400_0000_0000, 0x400_0000_0000);
}

/// A diffuse material: scatters into a random lobe around the normal, with
/// the attenuation given by a texture.
pub struct Lambertian {
    pub albedo: Texture,
}

impl Lambertian {
    /// The texture is well-formed.
    pub open spec fn wf(self) -> bool {
        self.albedo.wf()
    }

    /// A diffuse material from its texture.
    pub fn new(albedo: Texture) -> (r: Lambertian)
        ensures
            r.albedo == albedo,
    {
        Lambertian { albedo }
    }

    /// A diffuse material with one solid color.
    pub fn from_color(color: Vec3) -> (r: Lambertian)
        ensures
            r.albedo == (Texture::Solid(crate::texture::SolidColor { color })),
    {
        Lambertian { albedo: Texture::Solid(crate::texture::SolidColor { color }) }
    }
}

/// A specular material: mirrors the incoming direction, perturbed by a
/// fuzz-scaled random offset, with a constant albedo.
#[derive(Clone, Copy, PartialEq, Eq, Structural, Debug)]
pub struct Metal {
    pub albedo: Vec3,
    pub fuzz: Fx,
}

impl Metal {
    /// The albedo is a unit-interval color and the fuzz lies within one
    /// unit of magnitude.
    pub open spec fn wf(self) -> bool {
        color_ok(self.albedo.m()) && iabs(self.fuzz.v as int) <= SCALE as int
    }

    /// A specular material from its albedo and roughness; the roughness is
    /// clamped into the unit interval.
    pub fn new(albedo: Vec3, fuzz: Fx) -> (r: Metal)
        ensures
            r.albedo == albedo,
            r.fuzz.v == if fuzz.v < 0 {
                0int
            } else if fuzz.v < SCALE {
                fuzz.v as int
            } else {
                SCALE as int
            },
            iabs(r.fuzz.v as int) <= SCALE as int,
    {
        Metal {
            albedo,
            fuzz: if fuzz.v < 0 {
                Fx { v: 0 }
            } else if fuzz.v < SCALE {
                fuzz
            } else {
                Fx { v: SCALE }
            },
        }
    }
}

/// A refractive material with a refractive index; attenuation is always
/// white.
#[derive(Clone, Copy, PartialEq, Eq, Structural, Debug)]
pub struct Dielectric {
    pub ir: Fx,
}

impl Dielectric {
    /// The refractive index lies in the accepted physical range.
    pub open spec fn wf(self) -> bool {
        IOR_MIN <= self.ir.v <= IOR_MAX
    }

    /// A refractive material from its refractive index.
    pub fn new(ir: Fx) -> (r: Dielectric)
        requires
            IOR_MIN <= ir.v <= IOR_MAX,
        ensures
            r.ir == ir,
            r.wf(),
    {
        Dielectric { ir }
    }
}

/// A material: one of the closed set of scattering laws.
pub enum Material {
    /// Diffuse scattering with a textured albedo.
    Lambertian(Lambertian),
    /// Mirror reflection with fuzz and a constant albedo.
    Metal(Metal),
    /// Refraction with Fresnel-style reflection and white attenuation.
    Dielectric(Dielectric),
}

impl Material {
    /// Whether the material's parameters are in range.
    pub open spec fn wf(self) -> bool {
        match self {
            Material::Lambertian(l) => l.wf(),
            Material::Metal(m) => m.wf(),
            Material::Dielectric(d) => d.wf(),
        }
    }

    /// The executable mirror of `wf`, for callers that build scenes from
    /// unchecked values.
    pub fn wf_check(&self) -> (r: bool)
        ensures
            r == self.wf(),
    {
        match self {
            Material::Lambertian(l) => l.albedo.wf_check(),
            Material::Metal(m) => m.albedo.is_color() && -SCALE <= m.fuzz.v && m.fuzz.v <= SCALE,
            Material::Dielectric(d) => IOR_MIN <= d.ir.v && d.ir.v <= IOR_MAX,
        }
    }
}

/// The direction a diffuse scatter produces: the oriented normal plus the
/// normalized unit-sphere sample.
pub open spec fn lambertian_dir(normal: V3, sample: V3) -> V3 {
    vadd(normal, vunit(sample))
}

/// The direction a specular scatter produces: the mirror of the normalized
/// incoming direction, perturbed by the fuzz-scaled sample.
pub open spec fn metal_dir(fuzz: int, ray_dir: V3, normal: V3, sample: V3) -> V3 {
    vadd(reflect_val(vunit(ray_dir), normal), vscale(fuzz, sample))
}

/// The direction a refractive scatter produces: reflection under total
/// internal reflection, a winning Schlick coin, or a degenerate direction
/// or normal; refraction otherwise.
pub open spec fn dielectric_dir(ir: int, ray_dir: V3, h: HitData, coin: int) -> V3 {
    let ratio = if h.front_face {
        div_val(SCALE as int, ir)
    } else {
        ir
    };
    if vdot(ray_dir, ray_dir) < 1 {
        reflect_val(ray_dir, h.normal)
    } else {
        let u = vunit(ray_dir);
        let cos = crate::vec3::sclamp(vdot(vneg(u), h.normal), SCALE as int);
        let sin = sqrt_val(SCALE - mul_val(cos, cos));
        if mul_val(ratio, sin) > SCALE || reflectance_val(cos, ratio) > coin || vdot(
            h.normal,
            h.normal,
        ) < 1 {
            reflect_val(u, h.normal)
        } else {
            refract_val(ray_dir, h.normal, ratio)
        }
    }
}

/// What one scatter call yields: the outgoing ray and attenuation, or
/// absorption.  Diffuse and refractive materials always scatter; a
/// specular material absorbs exactly when the perturbed reflection points
/// into the surface, or when the incoming direction is degenerate.
pub open spec fn scatter_data(m: Material, ray: RayV, h: HitData, sample: ScatterSample) -> Option<
    (RayV, V3),
> {
    match m {
        Material::Lambertian(l) => Some(
            (
                RayV { origin: h.p, direction: lambertian_dir(h.normal, sample.in_sphere.m()) },
                tex_value(l.albedo, h.p),
            ),
        ),
        Material::Metal(mm) => {
            let dir = metal_dir(mm.fuzz.v as int, ray.direction, h.normal, sample.in_sphere.m());
            if vdot(ray.direction, ray.direction) >= 1 && vdot(dir, h.normal) > 0 {
                Some((RayV { origin: h.p, direction: dir }, mm.albedo.m()))
            } else {
                None
            }
        },
        Material::Dielectric(dd) => Some(
            (
                RayV {
                    origin: h.p,
                    direction: dielectric_dir(dd.ir.v as int, ray.direction, h, sample.coin.v as int),
                },
                V3 { x: SCALE as int, y: SCALE as int, z: SCALE as int },
            ),
        ),
    }
}

impl Lambertian {
    /// Diffuse scattering: never absorbs; the outgoing ray leaves the hit
    /// point along the normal plus a unit sample, and the attenuation is
    /// the texture's color at the hit point.
    pub fn scatter(&self, ray_in: &Ray, hit: &HitRecord, sample: &ScatterSample) -> (res: Option<
        (Ray, Vec3),
    >)
        requires
            self.wf(),
            hit.wf(),
            sample.wf(),
        ensures
            res is Some,
            res matches Some((sr, att)) ==> {
                &&& sr.origin == hit.p
                &&& sr.direction.m() == lambertian_dir(hit.normal.m(), sample.in_sphere.m())
                &&& att.m() == tex_value(self.albedo, hit.p.m())
                &&& sr.wf()
                &&& color_ok(att.m())
            },
    {
        proof {
            crate::vec3::lemma_unit_bound(sample.in_sphere.m());
        }
        let unit_s: Vec3 = sample.in_sphere.unit_vector();
        let scatter_direction: Vec3 = hit.normal.add(unit_s);
        let scattered: Ray = Ray::new(hit.p, scatter_direction);
        let attenuation: Vec3 = self.albedo.value(Fx::zero(), Fx::zero(), &hit.p);
        Some((scattered, attenuation))
    }
}

impl Metal {
    /// Specular scattering: the mirrored, fuzz-perturbed direction, absorbed
    /// exactly when that direction does not point off the surface, or when
    /// the incoming direction is degenerate.
    pub fn scatter(&self, ray_in: &Ray, hit: &HitRecord, sample: &ScatterSample) -> (res: Option<
        (Ray, Vec3),
    >)
        requires
            self.wf(),
            hit.wf(),
            sample.wf(),
            ray_in.wf(),
        ensures
            res is Some <==> (vdot(ray_in.direction.m(), ray_in.direction.m()) >= 1 && vdot(
                metal_dir(
                    self.fuzz.v as int,
                    ray_in.direction.m(),
                    hit.normal.m(),
                    sample.in_sphere.m(),
                ),
                hit.normal.m(),
            ) > 0),
            res matches Some((sr, att)) ==> {
                &&& sr.origin == hit.p
                &&& sr.direction.m() == metal_dir(
                    self.fuzz.v as int,
                    ray_in.direction.m(),
                    hit.normal.m(),
                    sample.in_sphere.m(),
                )
                &&& att == self.albedo
                &&& sr.wf()
                &&& color_ok(att.m())
            },
    {
        proof {
            crate::vec3::lemma_dot_bound(
                ray_in.direction.m(),
                ray_in.direction.m(),
                crate::ray::DIR_LIMIT as int,
                crate::ray::DIR_LIMIT as int,
            );
        }
        let rd: Vec3 = ray_in.direction();
        let lsq: Fx = rd.length_squared();
        if lsq.v < 1 {
            return None;
        }
        proof {
            crate::vec3::lemma_unit_bound(rd.m());
        }
        let v: Vec3 = rd.unit_vector();
        let reflected: Vec3 = reflect(&v, &hit.normal);
        proof {
            lemma_fuzz_term(self.fuzz.v as int, sample.in_sphere.m());
        }
        let fuzz_term: Vec3 = sample.in_sphere.scale(self.fuzz);
        let dir: Vec3 = reflected.add(fuzz_term);
        proof {
            crate::vec3::lemma_dot_bound(
                dir.m(),
                hit.normal.m(),
                0x8001_0000,
                crate::hittable::NORMAL_LIMIT as int,
            );
        }
        let d: Fx = dir.dot(&hit.normal);
        if d.v > 0 {
            Some((Ray::new(hit.p, dir), self.albedo))
        } else {
            None
        }
    }
}

/// The fuzz-scaled sample stays within one unit per component.
proof fn lemma_fuzz_term(fuzz: int, sample: V3)
    requires
        iabs(fuzz) <= SCALE as int,
        vbounded(sample, SCALE as int),
    ensures
        iabs(fuzz * sample.x) <= crate::vec3::PROD_LIMIT,
        iabs(fuzz * sample.y) <= crate::vec3::PROD_LIMIT,
        iabs(fuzz * sample.z) <= crate::vec3::PROD_LIMIT,
        vbounded(vscale(fuzz, sample), SCALE as int),
{
    crate::fixed::lemma_mul_val_bound(fuzz, sample.x, SCALE as int, SCALE as int);
    crate::fixed::lemma_mul_val_bound(fuzz, sample.y, SCALE as int, SCALE as int);
    crate::fixed::lemma_mul_val_bound(fuzz, sample.z, SCALE as int, SCALE as int);
    crate::fixed::lemma_tdiv_bound(fuzz * sample.x, SCALE as int, SCALE as int);
    crate::fixed::lemma_tdiv_bound(fuzz * sample.y, SCALE as int, SCALE as int);
    crate::fixed::lemma_tdiv_bound(fuzz * sample.z, SCALE as int, SCALE as int);
}

impl Dielectric {
    /// Refractive scattering: never absorbs; reflects under total internal
    /// reflection or a winning Schlick coin, refracts otherwise, with white
    /// attenuation.
    #[verifier::rlimit(60)]
    pub fn scatter(&self, ray_in: &Ray, hit: &HitRecord, sample: &ScatterSample) -> (res: Option<
        (Ray, Vec3),
    >)
        requires
            self.wf(),
            hit.wf(),
            sample.wf(),
            ray_in.wf(),
        ensures
            res is Some,
            res matches Some((sr, att)) ==> {
                &&& sr.origin == hit.p
                &&& sr.direction.m() == dielectric_dir(
                    self.ir.v as int,
                    ray_in.direction.m(),
                    hit.data(),
                    sample.coin.v as int,
                )
                &&& att.m() == (V3 { x: SCALE as int, y: SCALE as int, z: SCALE as int })
                &&& sr.wf()
                &&& color_ok(att.m())
            },
    {
        let ratio: Fx = if hit.front_face {
            proof {
                lemma_ratio_bounds(self.ir.v as int);
            }
            Fx { v: SCALE }.div(self.ir)
        } else {
            self.ir
        };
        proof {
            crate::vec3::lemma_dot_bound(
                ray_in.direction.m(),
                ray_in.direction.m(),
                crate::ray::DIR_LIMIT as int,
                crate::ray::DIR_LIMIT as int,
            );
        }
        let rd: Vec3 = ray_in.direction();
        let lsq: Fx = rd.length_squared();
        if lsq.v < 1 {
            proof {
                lemma_small_vector(rd.m());
            }
            let dir: Vec3 = reflect(&rd, &hit.normal);
            return Some((Ray::new(hit.p, dir), Vec3::one()));
        }
        proof {
            crate::vec3::lemma_unit_bound(rd.m());
        }
        let u: Vec3 = rd.unit_vector();
        proof {
            crate::vec3::lemma_dot_bound(
                vneg(u.m()),
                hit.normal.m(),
                UNIT_OUT_LIMIT as int,
                crate::hittable::NORMAL_LIMIT as int,
            );
            crate::vec3::lemma_vdot_neg(u.m(), hit.normal.m());
        }
        let dneg: Fx = u.neg().dot(&hit.normal);
        let cos: Fx = if dneg.v > SCALE {
            Fx { v: SCALE }
        } else if dneg.v < -SCALE {
            Fx { v: -SCALE }
        } else {
            dneg
        };
        proof {
            crate::fixed::lemma_abs_mul(cos.v as int, cos.v as int, SCALE as int, SCALE as int);
            crate::fixed::lemma_mul_val_unit(iabs(cos.v as int), iabs(cos.v as int));
            lemma_cos_sq_unit(cos.v as int);
        }
        let cos_sq: Fx = cos.mul(cos);
        let sin: Fx = Fx { v: SCALE - cos_sq.v }.sqrt();
        proof {
            assert(sin.v <= SCALE) by (nonlinear_arith)
                requires
                    sin.v >= 0,
                    sin.v * sin.v <= (SCALE - cos_sq.v) * SCALE,
                    0 <= SCALE - cos_sq.v <= SCALE,
                    SCALE == 65536,
            ;
            crate::fixed::lemma_abs_mul(ratio.v as int, sin.v as int, RATIO_LIMIT as int, SCALE as int);
            crate::fixed::lemma_tdiv_bound(ratio.v * sin.v, SCALE as int, RATIO_LIMIT as int);
        }
        let rs: Fx = ratio.mul(sin);
        let cannot_refract: bool = rs.v > SCALE;
        proof {
            crate::vec3::lemma_dot_bound(
                hit.normal.m(),
                hit.normal.m(),
                crate::hittable::NORMAL_LIMIT as int,
                crate::hittable::NORMAL_LIMIT as int,
            );
        }
        let nlsq: Fx = hit.normal.length_squared();
        let dir: Vec3 = if cannot_refract || reflectance(cos, ratio).v > sample.coin.v || nlsq.v
            < 1 {
            reflect(&u, &hit.normal)
        } else {
            refract(&rd, &hit.normal, ratio)
        };
        Some((Ray::new(hit.p, dir), Vec3::one()))
    }
}

/// The refraction ratio for a front-face hit lies in the accepted range.
proof fn lemma_ratio_bounds(ir: int)
    requires
        IOR_MIN <= ir <= IOR_MAX,
    ensures
        1 <= div_val(SCALE as int, ir) <= RATIO_LIMIT as int,
        iabs((SCALE as int) * SCALE) < 0x1000_0000_0000_0000_0000_0000_0000_0000,
{
    let p = (SCALE as int) * SCALE;
    vstd::arithmetic::div_mod::lemma_div_is_ordered(ir, p, ir);
    vstd::arithmetic::div_mod::lemma_div_by_self(ir);
    crate::fixed::lemma_tdiv_bound(p, ir, RATIO_LIMIT as int);
    assert(iabs(p) <= ir * (RATIO_LIMIT as int)) by (nonlinear_arith)
        requires
            IOR_MIN <= ir,
            p == (SCALE as int) * SCALE,
            SCALE == 65536,
            IOR_MIN == 16384,
            RATIO_LIMIT == 0x8_0000,
    ;
}

/// The square of a clamped cosine lies in the unit interval.
proof fn lemma_cos_sq_unit(cos: int)
    requires
        iabs(cos) <= SCALE as int,
    ensures
        0 <= mul_val(cos, cos) <= SCALE as int,
{
    crate::fixed::lemma_square_nonneg(cos);
    vstd::arithmetic::div_mod::lemma_div_pos_is_pos(cos * cos, SCALE as int);
    assert(cos * cos <= (SCALE as int) * SCALE) by (nonlinear_arith)
        requires
            iabs(cos) <= SCALE as int,
    ;
    vstd::arithmetic::div_mod::lemma_div_is_ordered(
        cos * cos,
        (SCALE as int) * SCALE,
        SCALE as int,
    );
    vstd::arithmetic::div_mod::lemma_div_multiples_vanish(SCALE as int, SCALE as int);
}

impl Material {
    /// One scatter event, dispatched on the material's variant, exactly as
    /// `scatter_data` states it.
    pub fn scatter(&self, ray_in: &Ray, hit: &HitRecord, sample: &ScatterSample) -> (res: Option<
        (Ray, Vec3),
    >)
        requires
            self.wf(),
            hit.wf(),
            sample.wf(),
            ray_in.wf(),
        ensures
            (match res {
                Some((sr, att)) => Some((sr.m(), att.m())),
                None => None,
            }) == scatter_data(*self, ray_in.m(), hit.data(), *sample),
            res matches Some((sr, att)) ==> sr.wf() && sr.origin == hit.p && color_ok(att.m()),
    {
        match self {
            Material::Lambertian(l) => l.scatter(ray_in, hit, sample),
            Material::Metal(m) => m.scatter(ray_in, hit, sample),
            Material::Dielectric(d) => d.scatter(ray_in, hit, sample),
        }
    }
}

/// A vector whose fixed-point squared length vanishes has tiny components.
pub proof fn lemma_small_vector(s: V3)
    requires
        vdot(s, s) < 1,
    ensures
        vbounded(s, SCALE as int),
{
    crate::vec3::lemma_vdot_self_nonneg(s);
    lemma_small_component(s.x, mul_val(s.x, s.x));
    lemma_small_component(s.y, mul_val(s.y, s.y));
    lemma_small_component(s.z, mul_val(s.z, s.z));
}

/// A component whose fixed-point square vanishes is below one unit.
proof fn lemma_small_component(x: int, sq: int)
    requires
        sq == mul_val(x, x),
        sq == 0,
    ensures
        iabs(x) <= SCALE as int,
{
    crate::fixed::lemma_square_nonneg(x);
    crate::fixed::lemma_tdiv_abs(x * x, SCALE as int);
    vstd::arithmetic::div_mod::lemma_fundamental_div_mod(x * x, SCALE as int);
    vstd::arithmetic::div_mod::lemma_mod_bound(x * x, SCALE as int);
    assert(iabs(x) <= SCALE) by (nonlinear_arith)
        requires
            x * x < SCALE,
            SCALE == 65536,
    ;
}

} // verus!
