//! Procedural textures: a pure mapping from a surface point to a color.
//!
//! A texture is a closed set of variants: a solid color, a checker of two
//! child textures over a spatial lattice, and a marble pattern driven by the
//! turbulence of the lattice noise field.  Evaluation is specified exactly,
//! and every produced color lies in the unit interval per channel.

use crate::fixed::{fdiv, floor_div, iabs, mul_val, sqrt_val, Fx, COORD_LIMIT, SCALE};
use crate::noise::{noise_val, Noise, NOISE_IN_LIMIT};
use crate::trig::sin_val;
use crate::vec3::{color_ok, vadd, vbounded, vscale, Vec3, V3};
use vstd::arithmetic::div_mod::{lemma_fundamental_div_mod, lemma_fundamental_div_mod_converse};
use vstd::arithmetic::power2::{lemma2_to64, lemma_pow2_adds, lemma_pow2_strictly_increases, pow2};
use vstd::prelude::*;

verus! {

/// Largest raw magnitude accepted for a checker scale.
pub const CHECKER_SCALE_LIMIT: i128 = 0x400_0000;

/// Largest raw value accepted for a marble frequency scale.
pub const MARBLE_SCALE_LIMIT: i128 = 0x10_0000;

/// Largest octave count accepted by the turbulence accumulator.
pub const TURB_DEPTH_LIMIT: u32 = 8;

/// A texture returning one constant color.
#[derive(Clone, Copy, PartialEq, Eq, Structural, Debug)]
pub struct SolidColor {
    pub color: Vec3,
}

impl SolidColor {
    /// The stored color is a unit-interval color.
    pub open spec fn wf(self) -> bool {
        color_ok(self.color.m())
    }

    /// A solid texture from its color.
    pub fn new(color: Vec3) -> (r: SolidColor)
        ensures
            r.color == color,
    {
        SolidColor { color }
    }
}

/// A checker of two child textures over the integer lattice scaled by
/// `scale`.
pub struct CheckerTexture {
    pub odd: Box<Texture>,
    pub even: Box<Texture>,
    pub scale: Fx,
}

/// The lattice coordinate of a point coordinate under a checker scale: the
/// floor of their exact product.
pub open spec fn checker_coord(scale: int, x: int) -> int {
    fdiv(scale * x, (SCALE as int) * (SCALE as int))
}

/// Whether a point falls on an even checker cell: the parity of the sum of
/// its three lattice coordinates.
pub open spec fn checker_even(scale: int, p: V3) -> bool {
    (checker_coord(scale, p.x) + checker_coord(scale, p.y) + checker_coord(scale, p.z)) % 2 == 0
}

impl CheckerTexture {
    /// A checker of two solid colors, as the scene builders use it.
    pub fn new(c1: Vec3, c2: Vec3, scale: Fx) -> (r: CheckerTexture)
        ensures
            r.scale == scale,
            (*r.odd) == (Texture::Solid(SolidColor { color: c1 })),
            (*r.even) == (Texture::Solid(SolidColor { color: c2 })),
    {
        CheckerTexture {
            odd: Box::new(Texture::Solid(SolidColor { color: c1 })),
            even: Box::new(Texture::Solid(SolidColor { color: c2 })),
            scale,
        }
    }
}

/// A marble texture: a sine pattern along the first axis, perturbed by
/// noise turbulence, blending two colors.
#[derive(Clone, Copy, PartialEq, Eq, Structural, Debug)]
pub struct MarbleTexture {
    pub noise: Noise,
    pub scale: Fx,
    pub color1: Vec3,
    pub color2: Vec3,
}

/// The remaining turbulence sum from an octave state: the weighted noise at
/// the scaled point, plus the sum over the doubled point with half the
/// weight.
pub open spec fn turb_sum(seed: int, scale: int, p: V3, w: int, depth: nat) -> int
    decreases depth,
{
    if depth == 0 {
        0
    } else {
        mul_val(w, noise_val(seed, vscale(scale, p))) + turb_sum(
            seed,
            scale,
            vadd(p, p),
            w / 2,
            (depth - 1) as nat,
        )
    }
}

/// The turbulence of the noise field: the magnitude of the octave sum
/// starting at unit weight.
pub open spec fn turb_val(seed: int, scale: int, p: V3, depth: nat) -> int {
    iabs(turb_sum(seed, scale, p, SCALE as int, depth))
}

/// The marble color at a point: a sine of the scaled first coordinate
/// shifted by four times the turbulence, remapped to the unit interval,
/// raised by a three-halves power, and used to blend the two colors.
pub open spec fn marble_value(m: MarbleTexture, p: V3) -> V3 {
    let turb = turb_val(m.noise.seed as int, m.scale.v as int, p, 7);
    let pattern = sin_val(mul_val(m.scale.v as int, p.x) + 4 * turb);
    let t = (pattern + SCALE) / 2;
    let t15 = mul_val(t, sqrt_val(t));
    V3 {
        x: mul_val(SCALE - t15, m.color1.m().x) + mul_val(t15, m.color2.m().x),
        y: mul_val(SCALE - t15, m.color1.m().y) + mul_val(t15, m.color2.m().y),
        z: mul_val(SCALE - t15, m.color1.m().z) + mul_val(t15, m.color2.m().z),
    }
}

impl MarbleTexture {
    /// Colors are unit-interval colors and the frequency scale is positive
    /// and bounded.
    pub open spec fn wf(self) -> bool {
        self.noise.wf() && 0 < self.scale.v <= MARBLE_SCALE_LIMIT && color_ok(self.color1.m())
            && color_ok(self.color2.m())
    }

    /// A marble texture from its frequency scale, base color, vein color
    /// and noise seed.
    pub fn new(scale: Fx, color1: Vec3, color2: Vec3, seed: u64) -> (r: MarbleTexture)
        requires
            0 < scale.v <= MARBLE_SCALE_LIMIT,
            color_ok(color1.m()),
            color_ok(color2.m()),
        ensures
            r.wf(),
            r.scale == scale,
            r.color1 == color1,
            r.color2 == color2,
            r.noise.seed == (seed as int) % (crate::noise::HASH_MOD as int),
    {
        MarbleTexture { noise: Noise::new(seed), scale, color1, color2 }
    }

    /// The turbulence at a point: `depth` octaves of noise at doubling
    /// frequencies and halving weights, accumulated and taken in magnitude.
    #[verifier::rlimit(60)]
    pub fn turbulence(&self, p: &Vec3, depth: u32) -> (r: Fx)
        requires
            self.wf(),
            vbounded(p.m(), COORD_LIMIT as int),
            depth <= TURB_DEPTH_LIMIT,
        ensures
            r.v == turb_val(self.noise.seed as int, self.scale.v as int, p.m(), depth as nat),
            0 <= r.v <= 2 * SCALE,
    {
        let mut accum: i128 = 0;
        let mut weight: i128 = SCALE;
        let mut temp_p: Vec3 = *p;
        let mut i: u32 = 0;
        proof {
            lemma2_to64();
        }
        while i < depth
            invariant
                i <= depth <= TURB_DEPTH_LIMIT,
                self.wf(),
                0 <= weight <= SCALE,
                iabs(accum as int) <= 2 * (SCALE - weight),
                vbounded(temp_p.m(), (COORD_LIMIT as int) * pow2(i as nat)),
                1 <= pow2(i as nat) <= 256,
                accum + turb_sum(
                    self.noise.seed as int,
                    self.scale.v as int,
                    temp_p.m(),
                    weight as int,
                    (depth - i) as nat,
                ) == turb_sum(
                    self.noise.seed as int,
                    self.scale.v as int,
                    p.m(),
                    SCALE as int,
                    depth as nat,
                ),
            decreases depth - i,
        {
            proof {
                lemma_octave_bounds(temp_p.m(), self.scale.v as int, pow2(i as nat) as int);
            }
            let q: Vec3 = temp_p.scale(self.scale);
            let nv: i128 = self.noise.at(&q);
            proof {
                crate::fixed::lemma_abs_mul(weight as int, nv as int, weight as int, SCALE as int);
                crate::fixed::lemma_tdiv_bound(weight * nv, SCALE as int, weight as int);
                lemma2_to64();
                lemma_pow2_adds(i as nat, 1);
                vstd::arithmetic::power2::lemma_pow2_pos((i + 1) as nat);
                if i + 1 < 8 {
                    lemma_pow2_strictly_increases((i + 1) as nat, 8);
                }
                assert(pow2((i + 1) as nat) == 2 * pow2(i as nat)) by (nonlinear_arith)
                    requires
                        pow2((i + 1) as nat) == pow2(i as nat) * pow2(1),
                        pow2(1) == 2,
                ;
                assert((COORD_LIMIT as int) * pow2((i + 1) as nat) == 2 * ((COORD_LIMIT as int)
                    * pow2(i as nat))) by (nonlinear_arith)
                    requires
                        pow2((i + 1) as nat) == 2 * pow2(i as nat),
                ;
            }
            let term: i128 = (weight * nv) / SCALE;
            accum = accum + term;
            weight = weight / 2;
            temp_p = temp_p.add(temp_p);
            i = i + 1;
        }
        if accum < 0 {
            Fx { v: -accum }
        } else {
            Fx { v: accum }
        }
    }

    /// The marble color at a point.
    pub fn value(&self, u: Fx, v: Fx, p: &Vec3) -> (c: Vec3)
        requires
            self.wf(),
            vbounded(p.m(), COORD_LIMIT as int),
        ensures
            c.m() == marble_value(*self, p.m()),
            color_ok(c.m()),
    {
        let turb: Fx = self.turbulence(p, 7);
        proof {
            crate::fixed::lemma_mul_val_bound(
                self.scale.v as int,
                p.m().x,
                MARBLE_SCALE_LIMIT as int,
                COORD_LIMIT as int,
            );
        }
        let sx: Fx = self.scale.mul(p.x);
        let pattern: Fx = crate::trig::sin_fx(Fx { v: sx.v + 4 * turb.v });
        let t: i128 = (pattern.v + SCALE) / 2;
        let st: Fx = Fx { v: t }.sqrt();
        proof {
            assert(st.v <= SCALE) by (nonlinear_arith)
                requires
                    st.v >= 0,
                    st.v * st.v <= t * SCALE,
                    0 <= t <= SCALE,
                    SCALE == 65536,
            ;
            crate::fixed::lemma_mul_val_unit(t as int, st.v as int);
            crate::fixed::lemma_abs_mul(t as int, st.v as int, SCALE as int, SCALE as int);
        }
        let t15: Fx = Fx { v: t }.mul(st);
        let w1: Fx = Fx { v: SCALE - t15.v };
        proof {
            lemma_blend_channel(t15.v as int, self.color1.m().x, self.color2.m().x);
            lemma_blend_channel(t15.v as int, self.color1.m().y, self.color2.m().y);
            lemma_blend_channel(t15.v as int, self.color1.m().z, self.color2.m().z);
        }
        Vec3 {
            x: w1.mul(self.color1.x).add(t15.mul(self.color2.x)),
            y: w1.mul(self.color1.y).add(t15.mul(self.color2.y)),
            z: w1.mul(self.color1.z).add(t15.mul(self.color2.z)),
        }
    }
}

/// Blending two unit-interval channels by a unit-interval weight stays in
/// the unit interval, and none of the products overflows.
proof fn lemma_blend_channel(t: int, c1: int, c2: int)
    requires
        0 <= t <= SCALE,
        0 <= c1 <= SCALE,
        0 <= c2 <= SCALE,
    ensures
        0 <= mul_val(SCALE - t, c1) + mul_val(t, c2) <= SCALE,
        iabs((SCALE - t) * c1) <= crate::vec3::PROD_LIMIT,
        iabs(t * c2) <= crate::vec3::PROD_LIMIT,
{
    crate::fixed::lemma_mul_val_unit(SCALE - t, c1);
    crate::fixed::lemma_mul_val_unit(t, c2);
    crate::fixed::lemma_abs_mul(SCALE - t, c1, SCALE as int, SCALE as int);
    crate::fixed::lemma_abs_mul(t, c2, SCALE as int, SCALE as int);
}

/// Scaling a doubled-up octave point stays inside the noise field's input
/// range and the multiplication headroom.
proof fn lemma_octave_bounds(p: V3, scale: int, f: int)
    requires
        vbounded(p, (COORD_LIMIT as int) * f),
        0 < scale <= MARBLE_SCALE_LIMIT as int,
        1 <= f <= 256,
    ensures
        iabs(scale * p.x) <= crate::vec3::PROD_LIMIT,
        iabs(scale * p.y) <= crate::vec3::PROD_LIMIT,
        iabs(scale * p.z) <= crate::vec3::PROD_LIMIT,
        vbounded(vscale(scale, p), NOISE_IN_LIMIT as int),
        iabs(p.x + p.x) <= crate::vec3::PROD_LIMIT,
        iabs(p.y + p.y) <= crate::vec3::PROD_LIMIT,
        iabs(p.z + p.z) <= crate::vec3::PROD_LIMIT,
{
    let k = (COORD_LIMIT as int) * 256;
    assert((COORD_LIMIT as int) * f <= k);
    crate::fixed::lemma_mul_val_bound(scale, p.x, MARBLE_SCALE_LIMIT as int, k);
    crate::fixed::lemma_mul_val_bound(scale, p.y, MARBLE_SCALE_LIMIT as int, k);
    crate::fixed::lemma_mul_val_bound(scale, p.z, MARBLE_SCALE_LIMIT as int, k);
    crate::fixed::lemma_tdiv_bound(scale * p.x, SCALE as int, NOISE_IN_LIMIT as int);
    crate::fixed::lemma_tdiv_bound(scale * p.y, SCALE as int, NOISE_IN_LIMIT as int);
    crate::fixed::lemma_tdiv_bound(scale * p.z, SCALE as int, NOISE_IN_LIMIT as int);
}

/// A procedural texture: one of the closed set of variants.
pub enum Texture {
    /// A constant color.
    Solid(SolidColor),
    /// Two child textures alternating on a lattice.
    Checker(CheckerTexture),
    /// A noise-perturbed sine blend of two colors.
    Marble(MarbleTexture),
}

/// Whether a texture's parameters are in range, recursively through checker
/// children.
pub open spec fn tex_wf(t: Texture) -> bool
    decreases t,
{
    match t {
        Texture::Solid(s) => s.wf(),
        Texture::Checker(c) => tex_wf(*c.odd) && tex_wf(*c.even) && iabs(c.scale.v as int)
            <= CHECKER_SCALE_LIMIT as int,
        Texture::Marble(m) => m.wf(),
    }
}

/// The color a texture yields at a point.
pub open spec fn tex_value(t: Texture, p: V3) -> V3
    decreases t,
{
    match t {
        Texture::Solid(s) => s.color.m(),
        Texture::Checker(c) => if checker_even(c.scale.v as int, p) {
            tex_value(*c.even, p)
        } else {
            tex_value(*c.odd, p)
        },
        Texture::Marble(m) => marble_value(m, p),
    }
}

impl Texture {
    /// Whether the texture's parameters are in range.
    pub open spec fn wf(self) -> bool {
        tex_wf(self)
    }

    /// The executable mirror of `wf`, for callers that build scenes from
    /// unchecked values.
    pub fn wf_check(&self) -> (r: bool)
        ensures
            r == self.wf(),
        decreases *self,
    {
        match self {
            Texture::Solid(s) => s.color.is_color(),
            Texture::Checker(c) => c.odd.wf_check() && c.even.wf_check() && -CHECKER_SCALE_LIMIT
                <= c.scale.v && c.scale.v <= CHECKER_SCALE_LIMIT,
            Texture::Marble(m) => m.noise.seed >= 0 && m.noise.seed < crate::noise::HASH_MOD && 0
                < m.scale.v && m.scale.v <= MARBLE_SCALE_LIMIT && m.color1.is_color()
                && m.color2.is_color(),
        }
    }

    /// The texture's color at a surface point; the `u`, `v` surface
    /// coordinates are accepted for interface compatibility and unused.
    #[verifier::rlimit(60)]
    pub fn value(&self, u: Fx, v: Fx, p: &Vec3) -> (c: Vec3)
        requires
            self.wf(),
            vbounded(p.m(), COORD_LIMIT as int),
        ensures
            c.m() == tex_value(*self, p.m()),
            color_ok(c.m()),
        decreases *self,
    {
        match self {
            Texture::Solid(s) => s.color,
            Texture::Checker(c) => {
                proof {
                    lemma_checker_prods(c.scale.v as int, p.m());
                }
                let xi: i128 = floor_div(c.scale.v * p.x.v, SCALE * SCALE);
                let yi: i128 = floor_div(c.scale.v * p.y.v, SCALE * SCALE);
                let zi: i128 = floor_div(c.scale.v * p.z.v, SCALE * SCALE);
                let sum: i128 = xi + yi + zi;
                proof {
                    lemma_parity_exec(sum as int);
                }
                if sum % 2 == 0 {
                    c.even.value(u, v, p)
                } else {
                    c.odd.value(u, v, p)
                }
            },
            Texture::Marble(m) => m.value(u, v, p),
        }
    }
}

/// The checker parity is periodic with period one over the scale along
/// each axis, and alternates deterministically: shifting a point by an
/// offset `d` whose exact product with the scale is one squared scale unit
/// (that is, by `1/scale`) advances the lattice coordinate of that axis by
/// exactly one and flips the cell parity.
pub proof fn lemma_checker_period(scale: int, d: int, p: V3)
    requires
        scale * d == (SCALE as int) * SCALE,
    ensures
        checker_coord(scale, p.x + d) == checker_coord(scale, p.x) + 1,
        checker_coord(scale, p.y + d) == checker_coord(scale, p.y) + 1,
        checker_coord(scale, p.z + d) == checker_coord(scale, p.z) + 1,
        checker_even(scale, V3 { x: p.x + d, y: p.y, z: p.z }) == !checker_even(scale, p),
        checker_even(scale, V3 { x: p.x, y: p.y + d, z: p.z }) == !checker_even(scale, p),
        checker_even(scale, V3 { x: p.x, y: p.y, z: p.z + d }) == !checker_even(scale, p),
{
    lemma_coord_shift(scale, d, p.x);
    lemma_coord_shift(scale, d, p.y);
    lemma_coord_shift(scale, d, p.z);
    lemma_parity_flip(
        checker_coord(scale, p.x) + checker_coord(scale, p.y) + checker_coord(scale, p.z),
    );
}

/// Shifting a coordinate by the exact lattice period advances its lattice
/// coordinate by one.
proof fn lemma_coord_shift(scale: int, d: int, x: int)
    requires
        scale * d == (SCALE as int) * SCALE,
    ensures
        checker_coord(scale, x + d) == checker_coord(scale, x) + 1,
{
    let s2 = (SCALE as int) * SCALE;
    assert(scale * (x + d) == scale * x + s2) by (nonlinear_arith)
        requires
            scale * d == s2,
    ;
    vstd::arithmetic::div_mod::lemma_div_plus_one(scale * x, s2);
}

/// Adding one to an integer flips its parity.
proof fn lemma_parity_flip(n: int)
    ensures
        ((n + 1) % 2 == 0) == !(n % 2 == 0),
{
    vstd::arithmetic::div_mod::lemma_fundamental_div_mod(n, 2);
    vstd::arithmetic::div_mod::lemma_mod_bound(n, 2);
    let q = n / 2;
    let r = n % 2;
    if r == 0 {
        lemma_fundamental_div_mod_converse(n + 1, 2, q, 1);
    } else {
        assert(n + 1 == (q + 1) * 2 + 0) by (nonlinear_arith)
            requires
                n == 2 * q + 1,
        ;
        lemma_fundamental_div_mod_converse(n + 1, 2, q + 1, 0);
    }
}

/// The checker's scaled products stay inside the arithmetic headroom, and
/// the lattice coordinates are small.
proof fn lemma_checker_prods(scale: int, p: V3)
    requires
        iabs(scale) <= CHECKER_SCALE_LIMIT as int,
        vbounded(p, COORD_LIMIT as int),
    ensures
        iabs(scale * p.x) <= CHECKER_SCALE_LIMIT * COORD_LIMIT,
        iabs(scale * p.y) <= CHECKER_SCALE_LIMIT * COORD_LIMIT,
        iabs(scale * p.z) <= CHECKER_SCALE_LIMIT * COORD_LIMIT,
        iabs(checker_coord(scale, p.x)) <= 0x4000_0000_0000,
        iabs(checker_coord(scale, p.y)) <= 0x4000_0000_0000,
        iabs(checker_coord(scale, p.z)) <= 0x4000_0000_0000,
{
    lemma_checker_coord_bound(scale, p.x);
    lemma_checker_coord_bound(scale, p.y);
    lemma_checker_coord_bound(scale, p.z);
}

/// One lattice coordinate is bounded by the scaled product over the square
/// of the scale unit.
proof fn lemma_checker_coord_bound(scale: int, x: int)
    requires
        iabs(scale) <= CHECKER_SCALE_LIMIT as int,
        iabs(x) <= COORD_LIMIT as int,
    ensures
        iabs(scale * x) <= CHECKER_SCALE_LIMIT * COORD_LIMIT,
        iabs(checker_coord(scale, x)) <= 0x4000_0000_0000,
{
    crate::fixed::lemma_abs_mul(scale, x, CHECKER_SCALE_LIMIT as int, COORD_LIMIT as int);
    let s2 = (SCALE as int) * (SCALE as int);
    let q = checker_coord(scale, x);
    let p = scale * x;
    lemma_fundamental_div_mod(p, s2);
    vstd::arithmetic::div_mod::lemma_mod_bound(p, s2);
    assert(iabs(q) <= 0x4000_0000_0000) by (nonlinear_arith)
        requires
            p == s2 * q + (p % s2),
            0 <= p % s2 < s2,
            s2 == 0x1_0000_0000,
            iabs(p) <= CHECKER_SCALE_LIMIT * COORD_LIMIT,
            CHECKER_SCALE_LIMIT == 0x400_0000,
            COORD_LIMIT == 0x10_0000_0000,
    ;
}

/// The machine's truncating remainder by two vanishes exactly when the
/// Euclidean remainder does.
proof fn lemma_parity_exec(s: int)
    ensures
        ((if s >= 0 {
            s % 2
        } else {
            -((-s) % 2)
        }) == 0) == (s % 2 == 0),
{
    if s < 0 {
        crate::trig::lemma_euclid_mod_negative(s, 2);
        vstd::arithmetic::div_mod::lemma_mod_bound(-s, 2);
        vstd::arithmetic::div_mod::lemma_mod_bound(s, 2);
    }
}

} // verus!
