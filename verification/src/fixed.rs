//! Fixed-point scalar arithmetic.
//!
//! A scalar is stored as an `i128` count of 1/65536 units.  Every operation
//! has an exact contract: multiplication and division state their result as a
//! truncating (round-toward-zero) integer division, and the square root states
//! its result as the exact integer square root of the scaled radicand.

use vstd::arithmetic::div_mod::{
    lemma_div_is_ordered, lemma_div_multiples_vanish, lemma_div_nonincreasing,
    lemma_div_pos_is_pos, lemma_fundamental_div_mod, lemma_fundamental_div_mod_converse,
};
use vstd::arithmetic::mul::{lemma_mul_inequality, lemma_mul_nonnegative, lemma_mul_unary_negation};
use vstd::prelude::*;

verus! {

/// Number of fractional units per whole unit: a scalar holds its value times
/// `SCALE` as an integer.
pub const SCALE: i128 = 65536;

/// Largest raw magnitude accepted for scene coordinates, colors, radii and
/// ray parameters; leaves ample headroom in `i128` for the intermediate
/// products of the intersection and shading formulas.
pub const COORD_LIMIT: i128 = 0x10_0000_0000;

/// Largest raw value accepted by the square root (far beyond anything the
/// intersection formulas produce, yet small enough that the scaled radicand
/// fits in `u128`).
pub const SQRT_LIMIT: i128 = 0x1_0000_0000_0000_0000_0000_0000;

/// Magnitude of an integer.
pub open spec fn iabs(a: int) -> int {
    if a >= 0 {
        a
    } else {
        -a
    }
}

/// Truncating (round-toward-zero) division, the rounding rule of all
/// fixed-point products and quotients: the magnitudes are divided and the
/// quotient takes the sign of the exact quotient.
pub open spec fn tdiv(a: int, b: int) -> int {
    if (a >= 0) == (b >= 0) {
        iabs(a) / iabs(b)
    } else {
        -(iabs(a) / iabs(b))
    }
}

/// Flooring division by a positive divisor, used where a true floor is
/// needed (the lattice coordinates of the checker and noise textures).
pub open spec fn fdiv(a: int, b: int) -> int
    recommends
        b > 0,
{
    a / b
}

/// Raw value of a fixed-point product.
pub open spec fn mul_val(a: int, b: int) -> int {
    tdiv(a * b, SCALE as int)
}

/// Raw value of a fixed-point quotient.
pub open spec fn div_val(a: int, b: int) -> int {
    tdiv(a * SCALE, b)
}

/// The integer square root: the largest `r` with `r * r <= n`.
pub open spec fn isqrt_spec(n: nat) -> nat
    decreases n,
{
    if n == 0 {
        0
    } else {
        let r = isqrt_spec((n - 1) as nat);
        if (r + 1) * (r + 1) <= n {
            r + 1
        } else {
            r
        }
    }
}

/// Raw value of a fixed-point square root of a nonnegative raw value.
pub open spec fn sqrt_val(a: int) -> int
    recommends
        a >= 0,
{
    isqrt_spec((a * SCALE) as nat) as int
}

/// A fixed-point scalar: the real value `v / SCALE`.
#[derive(Clone, Copy, PartialEq, Eq, Structural, Debug)]
pub struct Fx {
    pub v: i128,
}

impl Fx {
    /// Whether the scalar lies in the range accepted for scene quantities.
    pub open spec fn wf(self) -> bool {
        iabs(self.v as int) <= COORD_LIMIT as int
    }

    /// The scalar with the given raw (scaled) representation.
    pub fn from_raw(v: i128) -> (r: Fx)
        ensures
            r.v == v,
    {
        Fx { v }
    }

    /// The scalar equal to the given integer.
    pub fn from_int(i: i64) -> (r: Fx)
        ensures
            r.v == i * SCALE,
    {
        Fx { v: (i as i128) * SCALE }
    }

    /// Zero.
    pub fn zero() -> (r: Fx)
        ensures
            r.v == 0,
    {
        Fx { v: 0 }
    }

    /// One.
    pub fn one() -> (r: Fx)
        ensures
            r.v == SCALE,
    {
        Fx { v: SCALE }
    }

    /// Exact sum.
    pub fn add(self, o: Fx) -> (r: Fx)
        requires
            i128::MIN <= self.v + o.v <= i128::MAX,
        ensures
            r.v == self.v + o.v,
    {
        Fx { v: self.v + o.v }
    }

    /// Exact difference.
    pub fn sub(self, o: Fx) -> (r: Fx)
        requires
            i128::MIN <= self.v - o.v <= i128::MAX,
        ensures
            r.v == self.v - o.v,
    {
        Fx { v: self.v - o.v }
    }

    /// Exact negation.
    pub fn neg(self) -> (r: Fx)
        requires
            self.v > i128::MIN,
        ensures
            r.v == -self.v,
    {
        Fx { v: -self.v }
    }

    /// Product, rounded toward zero.
    pub fn mul(self, o: Fx) -> (r: Fx)
        requires
            i128::MIN < self.v * o.v <= i128::MAX,
        ensures
            r.v == mul_val(self.v as int, o.v as int),
    {
        let p: i128 = self.v * o.v;
        proof {
            lemma_tdiv_abs(p as int, SCALE as int);
        }
        Fx { v: p / SCALE }
    }

    /// Quotient, rounded toward zero.
    pub fn div(self, o: Fx) -> (r: Fx)
        requires
            o.v != 0,
            o.v > i128::MIN,
            i128::MIN < self.v * SCALE <= i128::MAX,
        ensures
            r.v == div_val(self.v as int, o.v as int),
    {
        let p: i128 = self.v * SCALE;
        let num: i128 = if o.v < 0 {
            -p
        } else {
            p
        };
        let den: i128 = if o.v < 0 {
            -o.v
        } else {
            o.v
        };
        proof {
            lemma_tdiv_abs(p as int, o.v as int);
        }
        Fx { v: num / den }
    }

    /// Exact magnitude.
    pub fn abs(self) -> (r: Fx)
        requires
            self.v > i128::MIN,
        ensures
            r.v == iabs(self.v as int),
    {
        if self.v < 0 {
            Fx { v: -self.v }
        } else {
            self
        }
    }

    /// The smaller of two scalars.
    pub fn min(self, o: Fx) -> (r: Fx)
        ensures
            r.v == if self.v <= o.v {
                self.v
            } else {
                o.v
            },
    {
        if self.v <= o.v {
            self
        } else {
            o
        }
    }

    /// The larger of two scalars.
    pub fn max(self, o: Fx) -> (r: Fx)
        ensures
            r.v == if self.v >= o.v {
                self.v
            } else {
                o.v
            },
    {
        if self.v >= o.v {
            self
        } else {
            o
        }
    }

    /// Square root of a nonnegative scalar, rounded down in raw units.
    pub fn sqrt(self) -> (r: Fx)
        requires
            0 <= self.v <= SQRT_LIMIT,
        ensures
            r.v == sqrt_val(self.v as int),
            r.v >= 0,
            r.v * r.v <= self.v * SCALE < (r.v + 1) * (r.v + 1),
    {
        let n: u128 = (self.v as u128) * (SCALE as u128);
        let s: u128 = isqrt(n);
        proof {
            assert(s < 0x1_0000_0000_0000_0000) by (nonlinear_arith)
                requires
                    s * s <= n < 0x1_0000_0000_0000_0000_0000_0000_0000_0000,
            ;
        }
        Fx { v: s as i128 }
    }
}

/// Flooring division by a positive divisor, computed from the machine's
/// truncating division.
pub fn floor_div(a: i128, b: i128) -> (r: i128)
    requires
        b > 0,
        a > i128::MIN,
    ensures
        r == fdiv(a as int, b as int),
{
    let q: i128 = a / b;
    let s: i128 = a % b;
    proof {
        if a < 0 {
            lemma_floor_div_negative(a as int, b as int);
        }
    }
    if a < 0 && s != 0 {
        q - 1
    } else {
        q
    }
}

/// The integer square root of a `u128`, by bisection.
pub fn isqrt(n: u128) -> (r: u128)
    ensures
        r * r <= n < (r + 1) * (r + 1),
        r == isqrt_spec(n as nat),
{
    let mut lo: u128 = 0;
    let mut hi: u128 = 0x1_0000_0000_0000_0000;
    proof {
        assert((hi as int) * (hi as int) > n as int) by (nonlinear_arith)
            requires
                hi == 0x1_0000_0000_0000_0000,
                n <= u128::MAX,
        ;
    }
    while lo + 1 < hi
        invariant
            0 <= lo < hi <= 0x1_0000_0000_0000_0000,
            lo * lo <= n,
            (hi as int) * (hi as int) > n as int,
        decreases hi - lo,
    {
        let mid: u128 = lo + (hi - lo) / 2;
        proof {
            assert(mid < hi);
            assert(mid * mid <= u128::MAX) by (nonlinear_arith)
                requires
                    0 <= mid < 0x1_0000_0000_0000_0000,
                    u128::MAX == 0xffff_ffff_ffff_ffff_ffff_ffff_ffff_ffff,
            ;
        }
        if mid * mid <= n {
            lo = mid;
        } else {
            hi = mid;
        }
    }
    proof {
        lemma_isqrt_spec_bounds(n as nat);
        lemma_isqrt_unique(n as nat, lo as nat);
    }
    lo
}

/// The magnitude of a truncating quotient is the quotient of the magnitudes,
/// and dividing never grows the magnitude.
pub proof fn lemma_tdiv_abs(a: int, b: int)
    requires
        b != 0,
    ensures
        iabs(tdiv(a, b)) == iabs(a) / iabs(b),
        iabs(tdiv(a, b)) <= iabs(a),
{
    lemma_div_pos_is_pos(iabs(a), iabs(b));
    lemma_div_nonincreasing(iabs(a), iabs(b));
}

/// For a negative dividend and positive divisor, the machine's truncating
/// quotient and remainder determine the flooring quotient.
proof fn lemma_floor_div_negative(a: int, b: int)
    requires
        b > 0,
        a < 0,
    ensures
        (-a) % b == 0 ==> fdiv(a, b) == -((-a) / b),
        (-a) % b != 0 ==> fdiv(a, b) == -((-a) / b) - 1,
{
    let m = -a;
    lemma_fundamental_div_mod(m, b);
    let q = m / b;
    let s = m % b;
    if s == 0 {
        assert(a == (-q) * b + 0) by {
            assert(m == b * q);
            lemma_mul_unary_negation(q, b);
            vstd::arithmetic::mul::lemma_mul_is_commutative(b, q);
        };
        lemma_fundamental_div_mod_converse(a, b, -q, 0);
    } else {
        assert(a == (-q - 1) * b + (b - s)) by {
            assert(m == b * q + s);
            assert((-q - 1) * b == -(b * q) - b) by (nonlinear_arith);
        };
        lemma_fundamental_div_mod_converse(a, b, -q - 1, b - s);
    }
}

/// The recursive integer square root is indeed the square root: its square
/// is at most `n`, and the next square exceeds `n`.
pub proof fn lemma_isqrt_spec_bounds(n: nat)
    ensures
        isqrt_spec(n) * isqrt_spec(n) <= n,
        n < (isqrt_spec(n) + 1) * (isqrt_spec(n) + 1),
    decreases n,
{
    if n == 0 {
        let s = isqrt_spec(n);
        assert(s == 0);
        assert(n < (s + 1) * (s + 1)) by (nonlinear_arith)
            requires
                n == 0,
                s == 0,
        ;
    } else {
        let m = (n - 1) as nat;
        lemma_isqrt_spec_bounds(m);
        let r = isqrt_spec(m);
        if (r + 1) * (r + 1) <= n {
            let s = isqrt_spec(n);
            assert(s == r + 1);
            assert(n == (r + 1) * (r + 1));
            assert(n < (s + 1) * (s + 1)) by (nonlinear_arith)
                requires
                    0 <= r,
                    s == r + 1,
                    n == (r + 1) * (r + 1),
            ;
        } else {
            assert(isqrt_spec(n) == r);
        }
    }
}

/// Any `r` whose square is at most `n` while the next square exceeds `n` is
/// the integer square root.
pub proof fn lemma_isqrt_unique(n: nat, r: nat)
    requires
        r * r <= n,
        n < (r + 1) * (r + 1),
    ensures
        r == isqrt_spec(n),
{
    lemma_isqrt_spec_bounds(n);
    let s = isqrt_spec(n);
    if r < s {
        assert(false) by (nonlinear_arith)
            requires
                r < s,
                s * s <= n,
                n < (r + 1) * (r + 1),
                0 <= r,
                0 <= s,
        ;
    }
    if r > s {
        assert(false) by (nonlinear_arith)
            requires
                s < r,
                r * r <= n,
                n < (s + 1) * (s + 1),
                0 <= r,
                0 <= s,
        ;
    }
}

/// A square is never negative.
pub proof fn lemma_square_nonneg(x: int)
    by (nonlinear_arith)
    ensures
        x * x >= 0,
{
}

/// Bound on the magnitude of a product from bounds on its factors.
pub proof fn lemma_abs_mul(a: int, b: int, ka: int, kb: int)
    by (nonlinear_arith)
    requires
        iabs(a) <= ka,
        iabs(b) <= kb,
    ensures
        iabs(a * b) <= ka * kb,
{
}

/// Bound on the magnitude of a truncating quotient: a bound on the dividend
/// divides through.
pub proof fn lemma_tdiv_bound(a: int, b: int, k: int)
    requires
        b != 0,
        iabs(a) <= iabs(b) * k,
        0 <= k,
    ensures
        iabs(tdiv(a, b)) <= k,
{
    lemma_tdiv_abs(a, b);
    lemma_div_is_ordered(iabs(a), iabs(b) * k, iabs(b));
    lemma_div_multiples_vanish(k, iabs(b));
}

/// Bound on a fixed-point product from bounds on its factors.
pub proof fn lemma_mul_val_bound(a: int, b: int, ka: int, kb: int)
    requires
        iabs(a) <= ka,
        iabs(b) <= kb,
    ensures
        iabs(a * b) <= ka * kb,
        iabs(mul_val(a, b)) <= ka * kb,
        SCALE * iabs(mul_val(a, b)) <= ka * kb + SCALE,
{
    lemma_abs_mul(a, b, ka, kb);
    assert(0 <= ka * kb) by (nonlinear_arith)
        requires
            iabs(a) <= ka,
            iabs(b) <= kb,
    ;
    lemma_tdiv_abs(a * b, SCALE as int);
    lemma_div_nonincreasing(iabs(a * b), SCALE as int);
    lemma_div_is_ordered(iabs(a * b), ka * kb, SCALE as int);
    let q = iabs(mul_val(a, b));
    assert(q == iabs(a * b) / (SCALE as int));
    lemma_fundamental_div_mod(iabs(a * b), SCALE as int);
    assert(SCALE * q <= iabs(a * b));
}

/// Bound on a fixed-point quotient from a bound on the dividend.
pub proof fn lemma_div_val_bound(a: int, b: int, ka: int)
    requires
        iabs(a) <= ka,
        b != 0,
    ensures
        iabs(div_val(a, b)) <= ka * SCALE,
        iabs(a * SCALE) <= ka * SCALE,
{
    lemma_abs_mul(a, SCALE as int, ka, SCALE as int);
    lemma_tdiv_abs(a * SCALE, b);
}

/// Multiplying a truncating quotient back by the divisor lands within one
/// divisor of the dividend.
pub proof fn lemma_tdiv_error(n: int, a: int)
    requires
        a >= 1,
    ensures
        iabs(a * tdiv(n, a) - n) <= a - 1,
{
    lemma_fundamental_div_mod(iabs(n), a);
    vstd::arithmetic::div_mod::lemma_mod_bound(iabs(n), a);
    let q = iabs(n) / a;
    let s = iabs(n) % a;
    assert(a * q == iabs(n) - s);
    if n >= 0 {
        assert(tdiv(n, a) == q);
    } else {
        assert(tdiv(n, a) == -q);
        assert(a * (-q) == -(a * q)) by (nonlinear_arith);
    }
}

/// A fixed-point product does not depend on the order of its factors.
pub proof fn lemma_mul_val_comm(a: int, b: int)
    ensures
        mul_val(a, b) == mul_val(b, a),
{
    vstd::arithmetic::mul::lemma_mul_is_commutative(a, b);
}

/// A product with a factor in the unit interval stays between zero and the
/// other factor.
pub proof fn lemma_mul_val_unit(a: int, b: int)
    requires
        0 <= a,
        0 <= b <= SCALE,
    ensures
        0 <= mul_val(a, b) <= a,
{
    lemma_mul_nonnegative(a, b);
    lemma_div_pos_is_pos(a * b, SCALE as int);
    lemma_mul_inequality(b, SCALE as int, a);
    assert(a * b <= a * SCALE) by (nonlinear_arith)
        requires
            0 <= a,
            b <= SCALE,
    ;
    lemma_div_is_ordered(a * b, a * SCALE, SCALE as int);
    lemma_div_multiples_vanish(a, SCALE as int);
}

} // verus!
