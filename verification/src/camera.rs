//! The camera: derives an orthonormal basis and viewport from the look
//! parameters, and turns normalized image-plane coordinates into rays,
//! with an optional thin-lens offset for depth of field.

use crate::fixed::{div_val, iabs, mul_val, Fx, COORD_LIMIT, SCALE};
use crate::ray::Ray;
use crate::trig::{cos_val, sin_val, PI_RAW};
use crate::vec3::{vadd, vbounded, vcross, vdot, vscale, vsub, vunit, Vec3, V3, UNIT_OUT_LIMIT};
use vstd::prelude::*;

verus! {

/// Largest raw vertical field of view accepted, comfortably past a full
/// circle in degrees.
pub const FOV_LIMIT: i128 = 0x100_0000;

/// Largest raw aspect ratio accepted.
pub const ASPECT_LIMIT: i128 = 0x100_0000;

/// Bound on each raw component of the stored viewport vectors and corner.
pub const VIEW_LIMIT: i128 = 0x1_0000_0000_0000_0000_0000;

/// The field of view in radians: degrees times pi over one hundred eighty.
pub open spec fn cam_theta(vfov: int) -> int {
    div_val(mul_val(vfov, PI_RAW as int), 180 * SCALE)
}

/// Half the field of view in radians.
pub open spec fn cam_half_theta(vfov: int) -> int {
    div_val(cam_theta(vfov), 2 * SCALE)
}

/// The tangent of half the field of view: sine over cosine, with the
/// denominator kept at least one raw unit.
pub open spec fn cam_tan_half(vfov: int) -> int {
    let c = cos_val(cam_half_theta(vfov));
    div_val(sin_val(cam_half_theta(vfov)), if c < 1 {
        1
    } else {
        c
    })
}

/// The basis vector pointing from the target to the eye.
pub open spec fn cam_w(lookfrom: V3, lookat: V3) -> V3 {
    vunit(vsub(lookfrom, lookat))
}

/// The basis vector pointing right.
pub open spec fn cam_u(lookfrom: V3, lookat: V3, vup: V3) -> V3 {
    vunit(vcross(vup, cam_w(lookfrom, lookat)))
}

/// The basis vector pointing up.
pub open spec fn cam_v(lookfrom: V3, lookat: V3, vup: V3) -> V3 {
    vcross(cam_w(lookfrom, lookat), cam_u(lookfrom, lookat, vup))
}

/// A camera: the eye, the viewport corner and extents, the orthonormal
/// basis, and the lens radius.
#[derive(Clone, Copy, PartialEq, Eq, Structural, Debug)]
pub struct Camera {
    pub origin: Vec3,
    pub lower_left_corner: Vec3,
    pub horizontal: Vec3,
    pub vertical: Vec3,
    pub u: Vec3,
    pub v: Vec3,
    pub w: Vec3,
    pub lens_radius: Fx,
}

impl Camera {
    /// The stored fields lie in the ranges `get_ray` accepts.
    pub open spec fn wf(self) -> bool {
        &&& vbounded(self.origin.m(), COORD_LIMIT as int)
        &&& vbounded(self.u.m(), UNIT_OUT_LIMIT as int)
        &&& vbounded(self.v.m(), 0x8_0000_0000)
        &&& vbounded(self.horizontal.m(), VIEW_LIMIT as int)
        &&& vbounded(self.vertical.m(), VIEW_LIMIT as int)
        &&& vbounded(self.lower_left_corner.m(), VIEW_LIMIT as int)
        &&& iabs(self.lens_radius.v as int) <= COORD_LIMIT as int
    }

    /// A camera from the eye position, the look target, the up direction,
    /// the vertical field of view in degrees, the aspect ratio, the lens
    /// aperture and the focus distance.
    #[verifier::rlimit(100)]
    pub fn new(
        lookfrom: Vec3,
        lookat: Vec3,
        vup: Vec3,
        vfov: Fx,
        aspect_ratio: Fx,
        aperture: Fx,
        focus_dist: Fx,
    ) -> (r: Camera)
        requires
            vbounded(lookfrom.m(), COORD_LIMIT as int),
            vbounded(lookat.m(), COORD_LIMIT as int),
            vbounded(vup.m(), COORD_LIMIT as int),
            vdot(vsub(lookfrom.m(), lookat.m()), vsub(lookfrom.m(), lookat.m())) >= 1,
            vdot(
                vcross(vup.m(), cam_w(lookfrom.m(), lookat.m())),
                vcross(vup.m(), cam_w(lookfrom.m(), lookat.m())),
            ) >= 1,
            0 < vfov.v <= FOV_LIMIT,
            0 < aspect_ratio.v <= ASPECT_LIMIT,
            0 <= aperture.v <= COORD_LIMIT,
            0 < focus_dist.v <= COORD_LIMIT,
        ensures
            r.origin == lookfrom,
            r.w.m() == cam_w(lookfrom.m(), lookat.m()),
            r.u.m() == cam_u(lookfrom.m(), lookat.m(), vup.m()),
            r.v.m() == cam_v(lookfrom.m(), lookat.m(), vup.m()),
            r.horizontal.m() == vscale(
                mul_val(
                    focus_dist.v as int,
                    mul_val(aspect_ratio.v as int, 2 * cam_tan_half(vfov.v as int)),
                ),
                r.u.m(),
            ),
            r.vertical.m() == vscale(
                mul_val(focus_dist.v as int, 2 * cam_tan_half(vfov.v as int)),
                r.v.m(),
            ),
            r.lower_left_corner.m() == vsub(
                vsub(
                    vsub(lookfrom.m(), vscale((SCALE as int) / 2, r.horizontal.m())),
                    vscale((SCALE as int) / 2, r.vertical.m()),
                ),
                vscale(focus_dist.v as int, r.w.m()),
            ),
            r.lens_radius.v == div_val(aperture.v as int, 2 * SCALE),
            r.wf(),
    {
        proof {
            lemma_theta_bounds(vfov.v as int, PI_RAW as int);
        }
        let theta: Fx = vfov.mul(Fx { v: PI_RAW }).div(Fx { v: 180 * SCALE });
        let half_theta: Fx = theta.div(Fx { v: 2 * SCALE });
        let sn: Fx = crate::trig::sin_fx(half_theta);
        let cs: Fx = crate::trig::cos_fx(half_theta);
        let den: Fx = if cs.v < 1 {
            Fx { v: 1 }
        } else {
            cs
        };
        proof {
            crate::fixed::lemma_abs_mul(sn.v as int, SCALE as int, SCALE as int, SCALE as int);
            crate::fixed::lemma_tdiv_abs((sn.v as int) * SCALE, den.v as int);
        }
        let h: Fx = sn.div(den);
        let viewport_height: Fx = Fx { v: 2 * h.v };
        proof {
            lemma_mul_tight(
                aspect_ratio.v as int,
                viewport_height.v as int,
                ASPECT_LIMIT as int,
                0x2_0000_0000,
                0x400_0000_0000,
            );
        }
        let viewport_width: Fx = aspect_ratio.mul(viewport_height);
        proof {
            crate::vec3::lemma_unit_bound(vsub(lookfrom.m(), lookat.m()));
        }
        let w: Vec3 = lookfrom.sub(lookat).unit_vector();
        proof {
            lemma_basis_cross(
                vup.m(),
                w.m(),
                COORD_LIMIT as int,
                UNIT_OUT_LIMIT as int,
                0x4000_0000_0000,
            );
            crate::vec3::lemma_unit_bound(vcross(vup.m(), w.m()));
        }
        let u: Vec3 = vup.cross(&w).unit_vector();
        proof {
            lemma_basis_cross(
                w.m(),
                u.m(),
                UNIT_OUT_LIMIT as int,
                UNIT_OUT_LIMIT as int,
                0x4_0000_0000,
            );
        }
        let v: Vec3 = w.cross(&u);
        let origin: Vec3 = lookfrom;
        proof {
            lemma_mul_tight(
                focus_dist.v as int,
                viewport_width.v as int,
                COORD_LIMIT as int,
                0x400_0000_0000,
                0x8000_0000_0000_0000,
            );
            lemma_mul_tight(
                focus_dist.v as int,
                viewport_height.v as int,
                COORD_LIMIT as int,
                0x2_0000_0000,
                0x40_0000_0000_0000,
            );
            lemma_scale_tight(
                mul_val(
                    focus_dist.v as int,
                    mul_val(aspect_ratio.v as int, viewport_height.v as int),
                ),
                u.m(),
                0x8000_0000_0000_0000,
                UNIT_OUT_LIMIT as int,
                0x100_0000_0000_0000_0000,
            );
            lemma_scale_tight(
                mul_val(focus_dist.v as int, viewport_height.v as int),
                v.m(),
                0x40_0000_0000_0000,
                0x4_0000_0000,
                0x200_0000_0000_0000_0000,
            );
        }
        let horizontal: Vec3 = u.scale(focus_dist.mul(viewport_width));
        let vertical: Vec3 = v.scale(focus_dist.mul(viewport_height));
        let half: Fx = Fx { v: SCALE / 2 };
        proof {
            lemma_scale_tight(
                (SCALE as int) / 2,
                horizontal.m(),
                SCALE as int,
                0x100_0000_0000_0000_0000,
                0x200_0000_0000_0000_0000,
            );
            lemma_scale_tight(
                (SCALE as int) / 2,
                vertical.m(),
                SCALE as int,
                0x200_0000_0000_0000_0000,
                0x400_0000_0000_0000_0000,
            );
            lemma_scale_tight(
                focus_dist.v as int,
                w.m(),
                COORD_LIMIT as int,
                UNIT_OUT_LIMIT as int,
                0x2000_0000_0000,
            );
            crate::fixed::lemma_abs_mul(
                aperture.v as int,
                SCALE as int,
                COORD_LIMIT as int,
                SCALE as int,
            );
            crate::fixed::lemma_tdiv_abs((aperture.v as int) * SCALE, 2 * SCALE);
            crate::fixed::lemma_tdiv_bound(
                (aperture.v as int) * SCALE,
                2 * SCALE,
                COORD_LIMIT as int,
            );
        }
        let lower_left_corner: Vec3 = origin.sub(horizontal.scale(half)).sub(
            vertical.scale(half),
        ).sub(w.scale(focus_dist));
        Camera {
            origin,
            lower_left_corner,
            horizontal,
            vertical,
            u,
            v,
            w,
            lens_radius: aperture.div(Fx { v: 2 * SCALE }),
        }
    }

    /// The ray through image-plane coordinates `(s, t)`, its origin offset
    /// by the lens-scaled disk sample expressed in the camera basis.
    #[verifier::rlimit(100)]
    pub fn get_ray(&self, s: Fx, t: Fx, disk_sample: &Vec3) -> (r: Ray)
        requires
            self.wf(),
            0 <= s.v <= SCALE,
            0 <= t.v <= SCALE,
            vbounded(disk_sample.m(), SCALE as int),
        ensures
            r.origin.m() == vadd(self.origin.m(), cam_offset(*self, disk_sample.m())),
            r.direction.m() == vsub(
                vsub(
                    vadd(
                        vadd(
                            self.lower_left_corner.m(),
                            vscale(s.v as int, self.horizontal.m()),
                        ),
                        vscale(t.v as int, self.vertical.m()),
                    ),
                    self.origin.m(),
                ),
                cam_offset(*self, disk_sample.m()),
            ),
    {
        proof {
            lemma_scale_tight(
                self.lens_radius.v as int,
                disk_sample.m(),
                COORD_LIMIT as int,
                SCALE as int,
                0x20_0000_0000,
            );
            let rdg = vscale(self.lens_radius.v as int, disk_sample.m());
            lemma_scale_tight(
                rdg.x,
                self.u.m(),
                0x20_0000_0000,
                UNIT_OUT_LIMIT as int,
                0x400_0000_0000_0000,
            );
            lemma_scale_tight(
                rdg.y,
                self.v.m(),
                0x20_0000_0000,
                0x8_0000_0000,
                0x200_0000_0000_0000,
            );
            lemma_scale_tight(
                s.v as int,
                self.horizontal.m(),
                SCALE as int,
                VIEW_LIMIT as int,
                (VIEW_LIMIT as int) + 1,
            );
            lemma_scale_tight(
                t.v as int,
                self.vertical.m(),
                SCALE as int,
                VIEW_LIMIT as int,
                (VIEW_LIMIT as int) + 1,
            );
        }
        let rd: Vec3 = disk_sample.scale(self.lens_radius);
        let offset: Vec3 = self.u.scale(rd.x).add(self.v.scale(rd.y));
        Ray::new(
            self.origin.add(offset),
            self.lower_left_corner.add(self.horizontal.scale(s)).add(self.vertical.scale(t)).sub(
                self.origin,
            ).sub(offset),
        )
    }
}

/// The lens offset for a disk sample: the sample scaled by the lens radius
/// and expressed in the camera's right and up basis vectors.
pub open spec fn cam_offset(c: Camera, disk_sample: V3) -> V3 {
    let rd = vscale(c.lens_radius.v as int, disk_sample);
    vadd(vscale(rd.x, c.u.m()), vscale(rd.y, c.v.m()))
}

/// The scaled field-of-view products fit the arithmetic headroom.
proof fn lemma_theta_bounds(vfov: int, pi: int)
    requires
        0 < vfov <= FOV_LIMIT as int,
        0 < pi < 4 * SCALE,
    ensures
        iabs(vfov * pi) <= crate::vec3::PROD_LIMIT,
        iabs(mul_val(vfov, pi)) <= 0x4_0000_0000,
        iabs(mul_val(vfov, pi) * SCALE) <= crate::vec3::PROD_LIMIT,
        iabs(div_val(mul_val(vfov, pi), 180 * SCALE)) <= 0x4_0000_0000,
        iabs(div_val(mul_val(vfov, pi), 180 * SCALE) * SCALE) <= crate::vec3::PROD_LIMIT,
        iabs(div_val(div_val(mul_val(vfov, pi), 180 * SCALE), 2 * SCALE)) <= 0x4_0000_0000,
{
    crate::fixed::lemma_mul_val_bound(vfov, pi, FOV_LIMIT as int, 4 * SCALE);
    let th = mul_val(vfov, pi);
    crate::fixed::lemma_div_val_bound(th, 180 * SCALE, 0x4_0000_0000);
    crate::fixed::lemma_tdiv_bound(th * SCALE, 180 * SCALE, 0x4_0000_0000);
    let q = div_val(th, 180 * SCALE);
    crate::fixed::lemma_div_val_bound(q, 2 * SCALE, 0x4_0000_0000);
    crate::fixed::lemma_tdiv_bound(q * SCALE, 2 * SCALE, 0x4_0000_0000);
}

/// A fixed-point product of bounded factors is bounded by the scaled-down
/// product of the bounds.
proof fn lemma_mul_tight(a: int, b: int, ka: int, kb: int, kr: int)
    requires
        iabs(a) <= ka,
        iabs(b) <= kb,
        0 <= ka,
        0 <= kb,
        0 <= kr,
        ka * kb <= crate::vec3::PROD_LIMIT,
        ka * kb + SCALE <= SCALE * kr,
    ensures
        iabs(a * b) <= crate::vec3::PROD_LIMIT,
        iabs(mul_val(a, b)) <= kr,
{
    crate::fixed::lemma_mul_val_bound(a, b, ka, kb);
}

/// Scaling a bounded vector by a bounded scalar keeps every product inside
/// the headroom and bounds each result component by `kr`.
proof fn lemma_scale_tight(t: int, a: V3, kt: int, ka: int, kr: int)
    requires
        iabs(t) <= kt,
        vbounded(a, ka),
        0 <= kt,
        0 <= ka,
        0 <= kr,
        kt * ka <= crate::vec3::PROD_LIMIT,
        kt * ka + SCALE <= SCALE * kr,
    ensures
        iabs(t * a.x) <= crate::vec3::PROD_LIMIT,
        iabs(t * a.y) <= crate::vec3::PROD_LIMIT,
        iabs(t * a.z) <= crate::vec3::PROD_LIMIT,
        vbounded(vscale(t, a), kr),
{
    crate::fixed::lemma_mul_val_bound(t, a.x, kt, ka);
    crate::fixed::lemma_mul_val_bound(t, a.y, kt, ka);
    crate::fixed::lemma_mul_val_bound(t, a.z, kt, ka);
}

/// The six products of a cross of two bounded vectors fit the headroom,
/// and each component of the cross is bounded by `kr`.
proof fn lemma_basis_cross(a: V3, b: V3, ka: int, kb: int, kr: int)
    requires
        vbounded(a, ka),
        vbounded(b, kb),
        0 <= ka,
        0 <= kb,
        0 <= kr,
        ka * kb <= crate::vec3::PROD_LIMIT,
        2 * (ka * kb) + 2 * SCALE <= SCALE * kr,
    ensures
        crate::vec3::cross_prods_ok(a, b),
        vbounded(vcross(a, b), kr),
        crate::vec3::prods_ok(vcross(a, b), vcross(a, b)) || kr * kr > crate::vec3::PROD_LIMIT,
{
    crate::fixed::lemma_mul_val_bound(a.y, b.z, ka, kb);
    crate::fixed::lemma_mul_val_bound(a.z, b.y, ka, kb);
    crate::fixed::lemma_mul_val_bound(a.z, b.x, ka, kb);
    crate::fixed::lemma_mul_val_bound(a.x, b.z, ka, kb);
    crate::fixed::lemma_mul_val_bound(a.x, b.y, ka, kb);
    crate::fixed::lemma_mul_val_bound(a.y, b.x, ka, kb);
    let c = vcross(a, b);
    crate::vec3::lemma_dot_bound(c, c, kr, kr);
}

} // verus!
