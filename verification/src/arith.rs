//! Exact integer helpers shared by the geometry engine: truncating division
//! with its algebraic bounds, and magnitude reasoning for overflow proofs.

use vstd::arithmetic::div_mod::{lemma_div_pos_is_pos, lemma_fundamental_div_mod, lemma_mod_bound};
use vstd::arithmetic::mul::lemma_mul_inequality;
use vstd::prelude::*;

verus! {

/// Integer division that rounds toward zero, as Rust's `/` and float-to-int
/// casts do, defined for positive divisors.
pub open spec fn tdiv(a: int, b: int) -> int
    recommends
        b > 0,
{
    if a >= 0 {
        a / b
    } else {
        -((-a) / b)
    }
}

/// Magnitude of an integer.
pub open spec fn mag(a: int) -> int {
    if a >= 0 {
        a
    } else {
        -a
    }
}

/// The quotient of a truncating division stays on the zero side of the
/// dividend: `tdiv(a, b) * b` lies between zero and `a`, within one divisor
/// of `a`; the quotient itself is no larger in magnitude than the dividend.
pub proof fn lemma_tdiv(a: int, b: int)
    requires
        b > 0,
    ensures
        a >= 0 ==> a - b < tdiv(a, b) * b <= a,
        a < 0 ==> a <= tdiv(a, b) * b < a + b,
        mag(tdiv(a, b)) <= mag(a),
        mag(tdiv(a, b) * b) <= mag(a),
{
    if a >= 0 {
        let q = a / b;
        lemma_fundamental_div_mod(a, b);
        lemma_mod_bound(a, b);
        lemma_div_pos_is_pos(a, b);
        assert(q * b == a - a % b);
        lemma_mul_inequality(1, b, q);
        assert(q * 1 == q);
    } else {
        let q = (-a) / b;
        lemma_fundamental_div_mod(-a, b);
        lemma_mod_bound(-a, b);
        lemma_div_pos_is_pos(-a, b);
        assert(q * b == -a - (-a) % b);
        lemma_mul_inequality(1, b, q);
        assert(q * 1 == q);
        assert(tdiv(a, b) * b == -(q * b)) by (nonlinear_arith)
            requires
                tdiv(a, b) == -q,
        ;
    }
}

/// The product of two integers is bounded by the product of bounds on
/// their magnitudes.
pub proof fn lemma_mag_mul(a: int, b: int, aa: int, bb: int)
    requires
        mag(a) <= aa,
        mag(b) <= bb,
    ensures
        mag(a * b) <= aa * bb,
{
    assert(mag(a * b) <= aa * bb) by (nonlinear_arith)
        requires
            mag(a) <= aa,
            mag(b) <= bb,
    ;
}

/// Multiplying by a positive factor keeps order, stated for the factor on
/// the right.
pub proof fn lemma_mul_mono(x: int, y: int, z: int)
    requires
        x <= y,
        z > 0,
    ensures
        x * z <= y * z,
{
    lemma_mul_inequality(x, y, z);
}

/// Truncating division of an `i128` by a positive divisor, exactly `tdiv`.
pub fn tdiv_i128(a: i128, b: i128) -> (r: i128)
    requires
        b > 0,
    ensures
        r == tdiv(a as int, b as int),
{
    proof {
        lemma_tdiv(a as int, b as int);
    }
    let q = a.checked_div(b);
    match q {
        Some(v) => v,
        None => 0,
    }
}

} // verus!
