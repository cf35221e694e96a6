//! Fixed-point sine and cosine.
//!
//! The library defines its own periodic sine: the argument is reduced to one
//! period, and each half-period is evaluated with the classical rational
//! approximation `16 t (pi - t) / (5 pi^2 - 4 t (pi - t))`.  The contract
//! states the computed value exactly and proves it stays within one unit of
//! magnitude, which is all the texture and camera formulas need.

use crate::fixed::{fdiv, floor_div, iabs, Fx, SCALE};
use vstd::arithmetic::div_mod::{
    lemma_div_is_ordered, lemma_div_multiples_vanish, lemma_div_pos_is_pos,
    lemma_fundamental_div_mod, lemma_fundamental_div_mod_converse, lemma_mod_bound,
};
use vstd::arithmetic::mul::lemma_mul_nonnegative;
use vstd::prelude::*;

verus! {

/// Half a period in raw units: pi times `SCALE`, rounded down.
pub const PI_RAW: i128 = 205887;

/// One full period in raw units, exactly twice `PI_RAW`.
pub const TWO_PI_RAW: i128 = 411774;

/// A quarter period in raw units.
pub const HALF_PI_RAW: i128 = 102944;

/// Largest raw magnitude accepted by the sine and cosine.
pub const TRIG_IN_LIMIT: i128 = 0x1_0000_0000_0000_0000_0000;

/// The rational half-period sine approximation on `[0, PI_RAW]`, in raw
/// units.
pub open spec fn bhaskara_val(th: int) -> int
    recommends
        0 <= th <= PI_RAW,
{
    let a = th * (PI_RAW as int - th);
    fdiv((16 * a) * (SCALE as int), 5 * ((PI_RAW as int) * (PI_RAW as int)) - 4 * a)
}

/// The library's sine in raw units: the argument reduced to one period, the
/// first half-period evaluated directly and the second negated.
pub open spec fn sin_val(x: int) -> int {
    let r = x % (TWO_PI_RAW as int);
    if r < PI_RAW {
        bhaskara_val(r)
    } else {
        -bhaskara_val(r - PI_RAW)
    }
}

/// The library's cosine: the sine shifted by a quarter period.
pub open spec fn cos_val(x: int) -> int {
    sin_val(x + HALF_PI_RAW)
}

/// The Euclidean remainder, always in `[0, b)`, from the machine's
/// truncating remainder.
pub fn euclid_mod(a: i128, b: i128) -> (r: i128)
    requires
        b > 0,
        a > i128::MIN,
    ensures
        r == (a as int) % (b as int),
        0 <= r < b,
{
    proof {
        lemma_mod_bound(a as int, b as int);
        if a < 0 {
            lemma_euclid_mod_negative(a as int, b as int);
        }
    }
    let s: i128 = a % b;
    if s < 0 {
        s + b
    } else {
        s
    }
}

/// For a negative dividend and positive divisor, the machine's truncating
/// remainder determines the Euclidean remainder.
pub proof fn lemma_euclid_mod_negative(a: int, b: int)
    requires
        b > 0,
        a < 0,
    ensures
        (-a) % b == 0 ==> a % b == 0,
        (-a) % b != 0 ==> a % b == b - (-a) % b,
{
    let m = -a;
    lemma_fundamental_div_mod(m, b);
    let q = m / b;
    let s = m % b;
    if s == 0 {
        assert(a == (-q) * b + 0) by {
            assert(m == b * q);
            vstd::arithmetic::mul::lemma_mul_unary_negation(q, b);
            vstd::arithmetic::mul::lemma_mul_is_commutative(b, q);
        };
        lemma_fundamental_div_mod_converse(a, b, -q, 0);
    } else {
        assert(a == (-q - 1) * b + (b - s)) by {
            assert(m == b * q + s);
            assert((-q - 1) * b == -(b * q) - b) by (nonlinear_arith);
        };
        lemma_fundamental_div_mod_converse(a, b, -q - 1, b - s);
    }
}

/// The half-period approximation, evaluated exactly as its specification
/// states; the result lies in `[0, SCALE]`.
fn bhaskara(th: i128) -> (r: i128)
    requires
        0 <= th <= PI_RAW,
    ensures
        r == bhaskara_val(th as int),
        0 <= r <= SCALE,
{
    proof {
        lemma_mul_nonnegative(th as int, PI_RAW - th);
        assert(4 * (th * (PI_RAW - th)) <= (PI_RAW as int) * (PI_RAW as int)) by (nonlinear_arith)
            requires
                0 <= th <= PI_RAW,
        ;
    }
    let a: i128 = th * (PI_RAW - th);
    let num: i128 = (16 * a) * SCALE;
    let den: i128 = 5 * (PI_RAW * PI_RAW) - 4 * a;
    proof {
        lemma_div_pos_is_pos(num as int, den as int);
        assert(num <= den * SCALE);
        lemma_div_is_ordered(num as int, den as int * SCALE, den as int);
        lemma_div_multiples_vanish(SCALE as int, den as int);
    }
    floor_div(num, den)
}

/// The library's sine: argument reduced modulo one period, each half-period
/// evaluated by the rational approximation; always within one unit.
pub fn sin_fx(x: Fx) -> (r: Fx)
    requires
        iabs(x.v as int) <= TRIG_IN_LIMIT,
    ensures
        r.v == sin_val(x.v as int),
        -SCALE <= r.v <= SCALE,
{
    let rm: i128 = euclid_mod(x.v, TWO_PI_RAW);
    if rm < PI_RAW {
        Fx { v: bhaskara(rm) }
    } else {
        Fx { v: -bhaskara(rm - PI_RAW) }
    }
}

/// The library's cosine: the sine shifted by a quarter period; always
/// within one unit.
pub fn cos_fx(x: Fx) -> (r: Fx)
    requires
        iabs(x.v as int) <= TRIG_IN_LIMIT - HALF_PI_RAW,
    ensures
        r.v == cos_val(x.v as int),
        -SCALE <= r.v <= SCALE,
{
    sin_fx(Fx { v: x.v + HALF_PI_RAW })
}

} // verus!
