//! 3-component vectors over the fixed-point scalar, used interchangeably as
//! points, directions and RGB colors.
//!
//! Each executable operation is specified against `V3`, the spec-level view
//! of a vector as a triple of mathematical integers (raw scaled values).

use crate::fixed::{
    iabs, lemma_tdiv_abs, lemma_tdiv_bound, mul_val, div_val, sqrt_val, Fx, COORD_LIMIT, SCALE,
    SQRT_LIMIT,
};
use vstd::arithmetic::div_mod::lemma_div_pos_is_pos;
use vstd::prelude::*;

verus! {

/// Largest magnitude allowed for each factor product inside a dot, cross or
/// componentwise product; keeps every intermediate sum well inside `i128`.
pub const PROD_LIMIT: i128 = 0x1000_0000_0000_0000_0000_0000_0000_0000;

/// Largest component magnitude accepted by the normalizer.
pub const UNIT_IN_LIMIT: i128 = 0x1_0000_0000_0000;

/// Bound on each component of a normalized vector: 257 whole units in raw
/// form, reached only for degenerate near-zero inputs.
pub const UNIT_OUT_LIMIT: i128 = 0x101_0000;

/// Spec-level view of a vector: its three raw scaled values as integers.
pub ghost struct V3 {
    pub x: int,
    pub y: int,
    pub z: int,
}

/// All three components at most `k` in magnitude.
pub open spec fn vbounded(a: V3, k: int) -> bool {
    iabs(a.x) <= k && iabs(a.y) <= k && iabs(a.z) <= k
}

/// All three channels in the unit color interval `[0, 1]`.
pub open spec fn color_ok(a: V3) -> bool {
    0 <= a.x <= SCALE && 0 <= a.y <= SCALE && 0 <= a.z <= SCALE
}

/// A scalar clamped to `[-k, k]`.
pub open spec fn sclamp(x: int, k: int) -> int {
    if x > k {
        k
    } else if x < -k {
        -k
    } else {
        x
    }
}

/// Each component clamped to `[-k, k]`.
pub open spec fn vclamp(a: V3, k: int) -> V3 {
    V3 { x: sclamp(a.x, k), y: sclamp(a.y, k), z: sclamp(a.z, k) }
}

/// Componentwise sum.
pub open spec fn vadd(a: V3, b: V3) -> V3 {
    V3 { x: a.x + b.x, y: a.y + b.y, z: a.z + b.z }
}

/// Componentwise difference.
pub open spec fn vsub(a: V3, b: V3) -> V3 {
    V3 { x: a.x - b.x, y: a.y - b.y, z: a.z - b.z }
}

/// Componentwise negation.
pub open spec fn vneg(a: V3) -> V3 {
    V3 { x: -a.x, y: -a.y, z: -a.z }
}

/// Componentwise (Hadamard) fixed-point product.
pub open spec fn vmul(a: V3, b: V3) -> V3 {
    V3 { x: mul_val(a.x, b.x), y: mul_val(a.y, b.y), z: mul_val(a.z, b.z) }
}

/// Fixed-point scaling by a scalar raw value.
pub open spec fn vscale(t: int, a: V3) -> V3 {
    V3 { x: mul_val(t, a.x), y: mul_val(t, a.y), z: mul_val(t, a.z) }
}

/// Fixed-point division of each component by a scalar raw value.
pub open spec fn vdiv(a: V3, t: int) -> V3 {
    V3 { x: div_val(a.x, t), y: div_val(a.y, t), z: div_val(a.z, t) }
}

/// Fixed-point dot product.
pub open spec fn vdot(a: V3, b: V3) -> int {
    mul_val(a.x, b.x) + mul_val(a.y, b.y) + mul_val(a.z, b.z)
}

/// Fixed-point cross product.
pub open spec fn vcross(a: V3, b: V3) -> V3 {
    V3 {
        x: mul_val(a.y, b.z) - mul_val(a.z, b.y),
        y: mul_val(a.z, b.x) - mul_val(a.x, b.z),
        z: mul_val(a.x, b.y) - mul_val(a.y, b.x),
    }
}

/// Raw length: the fixed-point square root of the squared length.
pub open spec fn vlen(a: V3) -> int {
    sqrt_val(vdot(a, a))
}

/// The normalized vector: each component divided by the length.
pub open spec fn vunit(a: V3) -> V3 {
    vdiv(a, vlen(a))
}

/// The magnitudes of the componentwise factor products all fit the product
/// headroom, so the corresponding executable operation cannot overflow.
pub open spec fn prods_ok(a: V3, b: V3) -> bool {
    iabs(a.x * b.x) <= PROD_LIMIT && iabs(a.y * b.y) <= PROD_LIMIT && iabs(a.z * b.z)
        <= PROD_LIMIT
}

/// The six factor products of a cross product all fit the product headroom.
pub open spec fn cross_prods_ok(a: V3, b: V3) -> bool {
    iabs(a.y * b.z) <= PROD_LIMIT && iabs(a.z * b.y) <= PROD_LIMIT && iabs(a.z * b.x)
        <= PROD_LIMIT && iabs(a.x * b.z) <= PROD_LIMIT && iabs(a.x * b.y) <= PROD_LIMIT && iabs(
        a.y * b.x,
    ) <= PROD_LIMIT
}

/// A 3-component vector of fixed-point scalars.
#[derive(Clone, Copy, PartialEq, Eq, Structural, Debug)]
pub struct Vec3 {
    pub x: Fx,
    pub y: Fx,
    pub z: Fx,
}

impl Vec3 {
    /// The spec-level view: the raw values of the three components.
    pub open spec fn m(self) -> V3 {
        V3 { x: self.x.v as int, y: self.y.v as int, z: self.z.v as int }
    }

    /// Whether every component lies in the range accepted for scene
    /// quantities.
    pub open spec fn wf(self) -> bool {
        vbounded(self.m(), COORD_LIMIT as int)
    }

    /// A vector from its three components.
    pub fn new(x: Fx, y: Fx, z: Fx) -> (r: Vec3)
        ensures
            r.m() == (V3 { x: x.v as int, y: y.v as int, z: z.v as int }),
    {
        Vec3 { x, y, z }
    }

    /// A color from its three channels; identical to `new`, named for use at
    /// call sites that build colors.
    pub fn color(r: Fx, g: Fx, b: Fx) -> (c: Vec3)
        ensures
            c.m() == (V3 { x: r.v as int, y: g.v as int, z: b.v as int }),
    {
        Vec3 { x: r, y: g, z: b }
    }

    /// The zero vector.
    pub fn zero() -> (r: Vec3)
        ensures
            r.m() == (V3 { x: 0int, y: 0int, z: 0int }),
    {
        Vec3 { x: Fx { v: 0 }, y: Fx { v: 0 }, z: Fx { v: 0 } }
    }

    /// The all-ones vector (white as a color).
    pub fn one() -> (r: Vec3)
        ensures
            r.m() == (V3 { x: SCALE as int, y: SCALE as int, z: SCALE as int }),
    {
        Vec3 { x: Fx { v: SCALE }, y: Fx { v: SCALE }, z: Fx { v: SCALE } }
    }

    /// Red channel.
    pub fn r(&self) -> (r: Fx)
        ensures
            r == self.x,
    {
        self.x
    }

    /// Green channel.
    pub fn g(&self) -> (r: Fx)
        ensures
            r == self.y,
    {
        self.y
    }

    /// Blue channel.
    pub fn b(&self) -> (r: Fx)
        ensures
            r == self.z,
    {
        self.z
    }

    /// Whether every component has magnitude at most `k`; the executable
    /// mirror of `vbounded`.
    pub fn is_bounded(&self, k: i128) -> (r: bool)
        requires
            k >= 0,
        ensures
            r == vbounded(self.m(), k as int),
    {
        -k <= self.x.v && self.x.v <= k && -k <= self.y.v && self.y.v <= k && -k <= self.z.v
            && self.z.v <= k
    }

    /// Whether every channel lies in the unit color interval; the
    /// executable mirror of `color_ok`.
    pub fn is_color(&self) -> (r: bool)
        ensures
            r == color_ok(self.m()),
    {
        0 <= self.x.v && self.x.v <= SCALE && 0 <= self.y.v && self.y.v <= SCALE && 0 <= self.z.v
            && self.z.v <= SCALE
    }

    /// Exact componentwise sum.
    pub fn add(self, o: Vec3) -> (r: Vec3)
        requires
            iabs(self.m().x + o.m().x) <= PROD_LIMIT,
            iabs(self.m().y + o.m().y) <= PROD_LIMIT,
            iabs(self.m().z + o.m().z) <= PROD_LIMIT,
        ensures
            r.m() == vadd(self.m(), o.m()),
    {
        Vec3 { x: self.x.add(o.x), y: self.y.add(o.y), z: self.z.add(o.z) }
    }

    /// Exact componentwise difference.
    pub fn sub(self, o: Vec3) -> (r: Vec3)
        requires
            iabs(self.m().x - o.m().x) <= PROD_LIMIT,
            iabs(self.m().y - o.m().y) <= PROD_LIMIT,
            iabs(self.m().z - o.m().z) <= PROD_LIMIT,
        ensures
            r.m() == vsub(self.m(), o.m()),
    {
        Vec3 { x: self.x.sub(o.x), y: self.y.sub(o.y), z: self.z.sub(o.z) }
    }

    /// Exact componentwise negation.
    pub fn neg(self) -> (r: Vec3)
        requires
            iabs(self.m().x) <= PROD_LIMIT,
            iabs(self.m().y) <= PROD_LIMIT,
            iabs(self.m().z) <= PROD_LIMIT,
        ensures
            r.m() == vneg(self.m()),
    {
        Vec3 { x: self.x.neg(), y: self.y.neg(), z: self.z.neg() }
    }

    /// Componentwise (Hadamard) product, each channel rounded toward zero.
    pub fn mul(self, o: Vec3) -> (r: Vec3)
        requires
            prods_ok(self.m(), o.m()),
        ensures
            r.m() == vmul(self.m(), o.m()),
    {
        Vec3 { x: self.x.mul(o.x), y: self.y.mul(o.y), z: self.z.mul(o.z) }
    }

    /// Scaling by a scalar, each component rounded toward zero.
    pub fn scale(self, t: Fx) -> (r: Vec3)
        requires
            iabs(t.v * self.m().x) <= PROD_LIMIT,
            iabs(t.v * self.m().y) <= PROD_LIMIT,
            iabs(t.v * self.m().z) <= PROD_LIMIT,
        ensures
            r.m() == vscale(t.v as int, self.m()),
    {
        Vec3 { x: t.mul(self.x), y: t.mul(self.y), z: t.mul(self.z) }
    }

    /// Division of each component by a scalar, rounded toward zero.
    pub fn div(self, t: Fx) -> (r: Vec3)
        requires
            t.v != 0,
            t.v > i128::MIN,
            iabs(self.m().x * SCALE) <= PROD_LIMIT,
            iabs(self.m().y * SCALE) <= PROD_LIMIT,
            iabs(self.m().z * SCALE) <= PROD_LIMIT,
        ensures
            r.m() == vdiv(self.m(), t.v as int),
    {
        Vec3 { x: self.x.div(t), y: self.y.div(t), z: self.z.div(t) }
    }

    /// Fixed-point dot product.
    pub fn dot(&self, o: &Vec3) -> (r: Fx)
        requires
            prods_ok(self.m(), o.m()),
        ensures
            r.v == vdot(self.m(), o.m()),
    {
        proof {
            lemma_tdiv_abs(self.m().x * o.m().x, SCALE as int);
            lemma_tdiv_abs(self.m().y * o.m().y, SCALE as int);
            lemma_tdiv_abs(self.m().z * o.m().z, SCALE as int);
        }
        self.x.mul(o.x).add(self.y.mul(o.y)).add(self.z.mul(o.z))
    }

    /// Fixed-point cross product.
    pub fn cross(&self, o: &Vec3) -> (r: Vec3)
        requires
            cross_prods_ok(self.m(), o.m()),
        ensures
            r.m() == vcross(self.m(), o.m()),
    {
        proof {
            lemma_tdiv_abs(self.m().y * o.m().z, SCALE as int);
            lemma_tdiv_abs(self.m().z * o.m().y, SCALE as int);
            lemma_tdiv_abs(self.m().z * o.m().x, SCALE as int);
            lemma_tdiv_abs(self.m().x * o.m().z, SCALE as int);
            lemma_tdiv_abs(self.m().x * o.m().y, SCALE as int);
            lemma_tdiv_abs(self.m().y * o.m().x, SCALE as int);
        }
        Vec3 {
            x: self.y.mul(o.z).sub(self.z.mul(o.y)),
            y: self.z.mul(o.x).sub(self.x.mul(o.z)),
            z: self.x.mul(o.y).sub(self.y.mul(o.x)),
        }
    }

    /// Fixed-point squared length; never negative.
    pub fn length_squared(&self) -> (r: Fx)
        requires
            prods_ok(self.m(), self.m()),
        ensures
            r.v == vdot(self.m(), self.m()),
            r.v >= 0,
    {
        proof {
            lemma_vdot_self_nonneg(self.m());
        }
        self.dot(self)
    }

    /// Fixed-point length: the square root of the squared length.
    pub fn length(&self) -> (r: Fx)
        requires
            prods_ok(self.m(), self.m()),
            vdot(self.m(), self.m()) <= SQRT_LIMIT,
        ensures
            r.v == vlen(self.m()),
            r.v >= 0,
    {
        self.length_squared().sqrt()
    }

    /// Each component clamped to `[-k, k]`.
    pub fn clamp_components(self, k: i128) -> (r: Vec3)
        requires
            k >= 0,
        ensures
            r.m() == vclamp(self.m(), k as int),
            vbounded(r.m(), k as int),
    {
        Vec3 { x: clamp_fx(self.x, k), y: clamp_fx(self.y, k), z: clamp_fx(self.z, k) }
    }

    /// The normalized vector, each component divided by the fixed-point
    /// length; components of the result stay within `UNIT_OUT_LIMIT`.
    pub fn unit_vector(&self) -> (r: Vec3)
        requires
            vbounded(self.m(), UNIT_IN_LIMIT as int),
            vdot(self.m(), self.m()) >= 1,
        ensures
            r.m() == vunit(self.m()),
            vbounded(r.m(), UNIT_OUT_LIMIT as int),
    {
        proof {
            lemma_unit_in_prods(self.m());
            lemma_unit_bound(self.m());
        }
        let l = self.length();
        Vec3 { x: self.x.div(l), y: self.y.div(l), z: self.z.div(l) }
    }
}

/// One scalar clamped to `[-k, k]`.
fn clamp_fx(x: Fx, k: i128) -> (r: Fx)
    requires
        k >= 0,
    ensures
        r.v == sclamp(x.v as int, k as int),
{
    if x.v > k {
        Fx { v: k }
    } else if x.v < -k {
        Fx { v: -k }
    } else {
        x
    }
}

/// Negating one operand negates a fixed-point dot product.
pub proof fn lemma_vdot_neg(a: V3, b: V3)
    ensures
        vdot(a, vneg(b)) == -vdot(a, b),
{
    lemma_mul_val_neg(a.x, b.x);
    lemma_mul_val_neg(a.y, b.y);
    lemma_mul_val_neg(a.z, b.z);
}

/// Negating one factor negates a fixed-point product.
pub proof fn lemma_mul_val_neg(x: int, y: int)
    ensures
        mul_val(x, -y) == -mul_val(x, y),
{
    vstd::arithmetic::mul::lemma_mul_unary_negation(x, y);
    assert(x * (-y) == -(x * y));
}

/// The dot product of a vector with itself is nonnegative: each squared
/// term is nonnegative.
pub proof fn lemma_vdot_self_nonneg(a: V3)
    ensures
        vdot(a, a) >= 0,
        mul_val(a.x, a.x) >= 0,
        mul_val(a.y, a.y) >= 0,
        mul_val(a.z, a.z) >= 0,
{
    crate::fixed::lemma_square_nonneg(a.x);
    crate::fixed::lemma_square_nonneg(a.y);
    crate::fixed::lemma_square_nonneg(a.z);
    lemma_div_pos_is_pos(a.x * a.x, SCALE as int);
    lemma_div_pos_is_pos(a.y * a.y, SCALE as int);
    lemma_div_pos_is_pos(a.z * a.z, SCALE as int);
}

/// Bound on a fixed-point dot product from bounds on its operands, both
/// coarsely and with the scale divided out.
pub proof fn lemma_dot_bound(a: V3, b: V3, ka: int, kb: int)
    requires
        vbounded(a, ka),
        vbounded(b, kb),
    ensures
        iabs(vdot(a, b)) <= 3 * (ka * kb),
        SCALE * iabs(vdot(a, b)) <= 3 * (ka * kb) + 3 * SCALE,
        prods_ok(a, b) || ka * kb > PROD_LIMIT,
{
    lemma_dot_term_bound(a.x, b.x, ka, kb);
    lemma_dot_term_bound(a.y, b.y, ka, kb);
    lemma_dot_term_bound(a.z, b.z, ka, kb);
}

/// Bound on one term of a dot product.
proof fn lemma_dot_term_bound(x: int, y: int, ka: int, kb: int)
    requires
        iabs(x) <= ka,
        iabs(y) <= kb,
    ensures
        iabs(x * y) <= ka * kb,
        iabs(mul_val(x, y)) <= ka * kb,
        SCALE * iabs(mul_val(x, y)) <= ka * kb + SCALE,
{
    crate::fixed::lemma_mul_val_bound(x, y, ka, kb);
}

/// A vector bounded by the normalizer's input limit has all its
/// self-products inside the headroom and a squared length within reach of
/// the square root.
pub proof fn lemma_unit_in_prods(a: V3)
    requires
        vbounded(a, UNIT_IN_LIMIT as int),
    ensures
        prods_ok(a, a),
        0 <= vdot(a, a) <= SQRT_LIMIT,
{
    lemma_dot_bound(a, a, UNIT_IN_LIMIT as int, UNIT_IN_LIMIT as int);
    lemma_vdot_self_nonneg(a);
}

/// Components of a normalized vector stay within `UNIT_OUT_LIMIT`: each
/// component's square is at most the squared length, so dividing by the
/// integer square root of the scaled squared length leaves at most about
/// one whole unit plus rounding slack.
pub proof fn lemma_unit_bound(a: V3)
    requires
        vbounded(a, UNIT_IN_LIMIT as int),
        vdot(a, a) >= 1,
    ensures
        vlen(a) >= 1,
        vbounded(vunit(a), UNIT_OUT_LIMIT as int),
        iabs(a.x * SCALE) <= PROD_LIMIT,
        iabs(a.y * SCALE) <= PROD_LIMIT,
        iabs(a.z * SCALE) <= PROD_LIMIT,
{
    let lsq = vdot(a, a);
    let l = vlen(a);
    crate::fixed::lemma_isqrt_spec_bounds((lsq * SCALE) as nat);
    assert(l * l <= lsq * SCALE < (l + 1) * (l + 1));
    assert(l >= 1) by (nonlinear_arith)
        requires
            lsq >= 1,
            SCALE == 65536,
            l >= 0,
            lsq * SCALE < (l + 1) * (l + 1),
    ;
    lemma_vdot_self_nonneg(a);
    lemma_unit_component_bound(a.x, lsq, l, mul_val(a.x, a.x), vdot(a, a) - mul_val(a.x, a.x));
    lemma_unit_component_bound(a.y, lsq, l, mul_val(a.y, a.y), vdot(a, a) - mul_val(a.y, a.y));
    lemma_unit_component_bound(a.z, lsq, l, mul_val(a.z, a.z), vdot(a, a) - mul_val(a.z, a.z));
    lemma_abs_scale_in_limit(a.x);
    lemma_abs_scale_in_limit(a.y);
    lemma_abs_scale_in_limit(a.z);
}

/// A component bounded by the normalizer's input limit keeps its scaled
/// product inside the headroom.
proof fn lemma_abs_scale_in_limit(x: int)
    requires
        iabs(x) <= UNIT_IN_LIMIT as int,
    ensures
        iabs(x * SCALE) <= PROD_LIMIT,
{
    crate::fixed::lemma_abs_mul(x, SCALE as int, UNIT_IN_LIMIT as int, SCALE as int);
}

/// One component of a normalized vector is at most 257 whole units: from
/// `x * x <= lsq * SCALE + SCALE` and the square-root bounds, the magnitude
/// of `x` is at most `l + 256`, and dividing the scaled component by `l`
/// then stays below `257 * SCALE`.
proof fn lemma_unit_component_bound(x: int, lsq: int, l: int, sq: int, rest: int)
    requires
        sq == mul_val(x, x),
        rest >= 0,
        lsq == sq + rest,
        sq >= 0,
        l >= 1,
        l * l <= lsq * SCALE < (l + 1) * (l + 1),
    ensures
        iabs(div_val(x, l)) <= UNIT_OUT_LIMIT as int,
{
    let s = SCALE as int;
    assert(x * x < sq * s + s) by {
        lemma_tdiv_abs(x * x, s);
        crate::fixed::lemma_square_nonneg(x);
        vstd::arithmetic::div_mod::lemma_fundamental_div_mod(x * x, s);
        vstd::arithmetic::div_mod::lemma_mod_division_less_than_divisor(x * x, s);
    };
    assert(sq * s <= lsq * s) by (nonlinear_arith)
        requires
            sq <= lsq,
            s > 0,
    ;
    assert(x * x < (l + 1) * (l + 1) + s);
    assert(iabs(x) <= l + 256) by (nonlinear_arith)
        requires
            x * x < (l + 1) * (l + 1) + s,
            s == 65536,
            l >= 1,
    ;
    assert(iabs(x * s) <= iabs(l) * (257 * 65536)) by (nonlinear_arith)
        requires
            iabs(x) <= l + 256,
            s == 65536,
            l >= 1,
    ;
    lemma_tdiv_bound(x * s, l, (257 * 65536) as int);
}

} // verus!
