//! Deterministic lattice value noise.
//!
//! A coherent noise field built from an integer hash of the surrounding
//! lattice points and trilinear interpolation of the eight corner values.
//! The field is a pure function of the seed and the query point, so renders
//! are reproducible from the seed alone; every value lies in `[-1, 1]`.

use crate::fixed::{fdiv, floor_div, iabs, mul_val, Fx, SCALE};
use crate::vec3::{vbounded, Vec3, V3};
use vstd::arithmetic::div_mod::{
    lemma_div_is_ordered, lemma_div_multiples_vanish, lemma_div_pos_is_pos,
    lemma_fundamental_div_mod, lemma_mod_bound,
};
use vstd::arithmetic::mul::{lemma_mul_inequality, lemma_mul_nonnegative};
use vstd::prelude::*;

verus! {

/// Modulus of the lattice hash.
pub const HASH_MOD: i128 = 2147483647;

/// Lattice hash mixing factors, one per axis.
pub const MIX_X: i128 = 73856093;

/// Second axis mixing factor.
pub const MIX_Y: i128 = 19349663;

/// Third axis mixing factor.
pub const MIX_Z: i128 = 83492791;

/// Largest raw component magnitude accepted for a noise query point.
pub const NOISE_IN_LIMIT: i128 = 0x4_0000_0000_0000;

/// The hashed value attached to a lattice point: mix the coordinates and
/// seed, square-mix, and map onto `[-SCALE, SCALE]`.
pub open spec fn lattice_val(seed: int, ix: int, iy: int, iz: int) -> int {
    let k = (ix * MIX_X + iy * MIX_Y + iz * MIX_Z + seed) % (HASH_MOD as int);
    let m = (k * k + 31 * k + seed) % (HASH_MOD as int);
    m % (2 * SCALE + 1) - SCALE
}

/// Linear interpolation from `a` to `b` by the unit-interval weight `t`.
pub open spec fn lerp_val(a: int, b: int, t: int) -> int {
    a + mul_val(t, b - a)
}

/// The noise field at a point: trilinear interpolation of the hashed values
/// at the eight surrounding lattice points.
#[verifier::opaque]
pub open spec fn noise_val(seed: int, p: V3) -> int {
    let x0 = fdiv(p.x, SCALE as int);
    let y0 = fdiv(p.y, SCALE as int);
    let z0 = fdiv(p.z, SCALE as int);
    let tx = p.x - (SCALE as int) * x0;
    let ty = p.y - (SCALE as int) * y0;
    let tz = p.z - (SCALE as int) * z0;
    let x00 = lerp_val(
        lattice_val(seed, x0, y0, z0),
        lattice_val(seed, x0 + 1, y0, z0),
        tx,
    );
    let x10 = lerp_val(
        lattice_val(seed, x0, y0 + 1, z0),
        lattice_val(seed, x0 + 1, y0 + 1, z0),
        tx,
    );
    let x01 = lerp_val(
        lattice_val(seed, x0, y0, z0 + 1),
        lattice_val(seed, x0 + 1, y0, z0 + 1),
        tx,
    );
    let x11 = lerp_val(
        lattice_val(seed, x0, y0 + 1, z0 + 1),
        lattice_val(seed, x0 + 1, y0 + 1, z0 + 1),
        tx,
    );
    lerp_val(lerp_val(x00, x10, ty), lerp_val(x01, x11, ty), tz)
}

/// A seeded noise field.
#[derive(Clone, Copy, PartialEq, Eq, Structural, Debug)]
pub struct Noise {
    pub seed: i128,
}

impl Noise {
    /// The seed is stored already reduced modulo the hash modulus.
    pub open spec fn wf(self) -> bool {
        0 <= self.seed < HASH_MOD
    }

    /// A noise field from an arbitrary seed.
    pub fn new(seed: u64) -> (r: Noise)
        ensures
            r.wf(),
            r.seed == (seed as int) % (HASH_MOD as int),
    {
        proof {
            lemma_mod_bound(seed as int, HASH_MOD as int);
        }
        Noise { seed: (seed as i128) % HASH_MOD }
    }

    /// The field's value at a point, always within one unit of magnitude.
    pub fn at(&self, p: &Vec3) -> (r: i128)
        requires
            self.wf(),
            vbounded(p.m(), NOISE_IN_LIMIT as int),
        ensures
            r == noise_val(self.seed as int, p.m()),
            -SCALE <= r <= SCALE,
    {
        proof {
            reveal(noise_val);
        }
        let x0: i128 = floor_div(p.x.v, SCALE);
        let y0: i128 = floor_div(p.y.v, SCALE);
        let z0: i128 = floor_div(p.z.v, SCALE);
        proof {
            lemma_cell_bounds(p.m().x);
            lemma_cell_bounds(p.m().y);
            lemma_cell_bounds(p.m().z);
        }
        let tx: i128 = p.x.v - SCALE * x0;
        let ty: i128 = p.y.v - SCALE * y0;
        let tz: i128 = p.z.v - SCALE * z0;
        let c000: i128 = self.hash(x0, y0, z0);
        let c100: i128 = self.hash(x0 + 1, y0, z0);
        let c010: i128 = self.hash(x0, y0 + 1, z0);
        let c110: i128 = self.hash(x0 + 1, y0 + 1, z0);
        let c001: i128 = self.hash(x0, y0, z0 + 1);
        let c101: i128 = self.hash(x0 + 1, y0, z0 + 1);
        let c011: i128 = self.hash(x0, y0 + 1, z0 + 1);
        let c111: i128 = self.hash(x0 + 1, y0 + 1, z0 + 1);
        let x00: i128 = lerp(c000, c100, tx);
        let x10: i128 = lerp(c010, c110, tx);
        let x01: i128 = lerp(c001, c101, tx);
        let x11: i128 = lerp(c011, c111, tx);
        let y0v: i128 = lerp(x00, x10, ty);
        let y1v: i128 = lerp(x01, x11, ty);
        lerp(y0v, y1v, tz)
    }

    /// The hashed value at one lattice point.
    fn hash(&self, ix: i128, iy: i128, iz: i128) -> (r: i128)
        requires
            self.wf(),
            iabs(ix as int) <= 0x100_0000_0000,
            iabs(iy as int) <= 0x100_0000_0000,
            iabs(iz as int) <= 0x100_0000_0000,
        ensures
            r == lattice_val(self.seed as int, ix as int, iy as int, iz as int),
            -SCALE <= r <= SCALE,
    {
        let k: i128 = crate::trig::euclid_mod(
            ix * MIX_X + iy * MIX_Y + iz * MIX_Z + self.seed,
            HASH_MOD,
        );
        proof {
            assert(k * k <= HASH_MOD * HASH_MOD) by (nonlinear_arith)
                requires
                    0 <= k < HASH_MOD,
            ;
            lemma_mul_nonnegative(k as int, k as int);
        }
        let m: i128 = crate::trig::euclid_mod(k * k + 31 * k + self.seed, HASH_MOD);
        let w: i128 = crate::trig::euclid_mod(m, 2 * SCALE + 1);
        w - SCALE
    }
}

/// The floor cell index of a bounded coordinate is bounded, and the
/// fractional offset lies in `[0, SCALE)`.
proof fn lemma_cell_bounds(x: int)
    requires
        iabs(x) <= NOISE_IN_LIMIT as int,
    ensures
        iabs(fdiv(x, SCALE as int)) <= 0x100_0000_0000,
        0 <= x - (SCALE as int) * fdiv(x, SCALE as int) < SCALE,
{
    let s = SCALE as int;
    lemma_fundamental_div_mod(x, s);
    lemma_mod_bound(x, s);
    lemma_div_is_ordered(x, NOISE_IN_LIMIT as int, s);
    lemma_div_is_ordered(-(NOISE_IN_LIMIT as int), x, s);
    assert((NOISE_IN_LIMIT as int) / s == 0x4_0000_0000);
    assert((-(NOISE_IN_LIMIT as int)) / s == -0x4_0000_0000);
}

/// Linear interpolation; the result stays between its endpoints.
pub fn lerp(a: i128, b: i128, t: i128) -> (r: i128)
    requires
        iabs(a as int) <= 2 * SCALE,
        iabs(b as int) <= 2 * SCALE,
        0 <= t <= SCALE,
    ensures
        r == lerp_val(a as int, b as int, t as int),
        (a <= b ==> a <= r <= b) && (b <= a ==> b <= r <= a),
{
    proof {
        lemma_lerp_range(a as int, b as int, t as int);
        crate::fixed::lemma_abs_mul(t as int, b - a, SCALE as int, 4 * SCALE);
    }
    let d: i128 = b - a;
    let p: i128 = t * d;
    a + p / SCALE
}

/// The interpolant lies between its endpoints for weights in the unit
/// interval.
proof fn lemma_lerp_range(a: int, b: int, t: int)
    requires
        iabs(a) <= 2 * SCALE,
        iabs(b) <= 2 * SCALE,
        0 <= t <= SCALE,
    ensures
        a <= b ==> a <= lerp_val(a, b, t) <= b,
        b <= a ==> b <= lerp_val(a, b, t) <= a,
{
    let s = SCALE as int;
    let d = b - a;
    if d >= 0 {
        lemma_mul_nonnegative(t, d);
        lemma_div_pos_is_pos(t * d, s);
        lemma_mul_inequality(t, s, d);
        assert(t * d <= s * d) by (nonlinear_arith)
            requires
                t <= s,
                d >= 0,
        ;
        lemma_div_is_ordered(t * d, s * d, s);
        lemma_div_multiples_vanish(d, s);
        assert(mul_val(t, d) <= d);
    } else {
        lemma_mul_nonnegative(t, -d);
        lemma_div_pos_is_pos(t * (-d), s);
        assert(t * (-d) <= s * (-d)) by (nonlinear_arith)
            requires
                t <= s,
                -d >= 0,
        ;
        lemma_div_is_ordered(t * (-d), s * (-d), s);
        lemma_div_multiples_vanish(-d, s);
        assert(iabs(t * d) == t * (-d)) by (nonlinear_arith)
            requires
                d < 0,
                t >= 0,
        ;
        crate::fixed::lemma_tdiv_abs(t * d, s);
        assert(t * d <= 0) by (nonlinear_arith)
            requires
                d < 0,
                t >= 0,
        ;
        assert(-(-d) <= mul_val(t, d) <= 0);
    }
}

} // verus!
