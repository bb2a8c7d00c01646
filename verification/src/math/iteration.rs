//! What the iterative form of Euclid's algorithm keeps true from one step to
//! the next: how the coefficients it carries stand to those of
//! [`euclid_pair`], and why they can be held in 32 bits.

use crate::math::division::{
    abs, lemma_trunc_div_rem, lemma_trunc_div_rem_abs, trunc_div, trunc_rem,
};
use crate::math::euclid::{euclid_pair, gcd_spec};
use vstd::prelude::*;

verus! {

/// Whether `x` and `y` are not of strictly opposite signs.
pub open spec fn alike(x: int, y: int) -> bool {
    (x >= 0 && y >= 0) || (x <= 0 && y <= 0)
}

/// Whether `x` and `y` are not of strictly the same sign.
pub open spec fn opposed(x: int, y: int) -> bool {
    (x >= 0 && y <= 0) || (x <= 0 && y >= 0)
}

/// How two successive coefficients of the iteration stand to the two
/// remainders `a`, `b` they belong to: their signs alternate when the
/// remainders agree in sign and agree when the remainders alternate, and
/// weighted crosswise by the remainders' magnitudes they add up to `total`.
pub open spec fn coefficients_balanced(total: int, a: int, b: int, c0: int, c1: int) -> bool {
    &&& total == abs(b) * abs(c0) + abs(a) * abs(c1)
    &&& ((a > 0) == (b > 0) ==> opposed(c0, c1))
    &&& ((a > 0) != (b > 0) ==> alike(c0, c1))
}

/// One step of the iteration keeps the coefficients balanced, which bounds
/// the new coefficient, and the product it is made from, by half of `total`.
pub proof fn lemma_coefficient_step(total: int, a: int, b: int, c0: int, c1: int)
    requires
        b != 0,
        trunc_rem(a, b) != 0,
        coefficients_balanced(total, a, b, c0, c1),
    ensures
        coefficients_balanced(total, b, trunc_rem(a, b), c1, c0 - trunc_div(a, b) * c1),
        abs(trunc_div(a, b) * c1) <= abs(c0 - trunc_div(a, b) * c1),
        2 * abs(c0 - trunc_div(a, b) * c1) <= total,
{
    lemma_trunc_div_rem(a, b);
    lemma_trunc_div_rem_abs(a, b);
    let q = trunc_div(a, b);
    let r = trunc_rem(a, b);
    let c2 = c0 - q * c1;
    assert(abs(q * c1) == abs(q) * abs(c1)) by (nonlinear_arith);
    assert(alike(c0, -(q * c1))) by (nonlinear_arith)
        requires
            (q >= 0 && opposed(c0, c1)) || (q <= 0 && alike(c0, c1)),
    ;
    assert(abs(c2) == abs(c0) + abs(q) * abs(c1));
    assert(abs(r) * abs(c1) + abs(b) * abs(c2) == abs(b) * abs(c0) + abs(a) * abs(c1))
        by (nonlinear_arith)
        requires
            abs(c2) == abs(c0) + abs(q) * abs(c1),
            abs(a) == abs(q) * abs(b) + abs(r),
    ;
    assert(2 * abs(c2) <= abs(b) * abs(c2)) by (nonlinear_arith)
        requires
            abs(b) >= 2,
    ;
    assert(0 <= abs(r) * abs(c1)) by (nonlinear_arith);
    assert({
        &&& (q >= 0 && c1 >= 0 ==> q * c1 >= 0)
        &&& (q >= 0 && c1 <= 0 ==> q * c1 <= 0)
        &&& (q <= 0 && c1 >= 0 ==> q * c1 <= 0)
        &&& (q <= 0 && c1 <= 0 ==> q * c1 >= 0)
    }) by (nonlinear_arith);
}

/// When `b` divides `a`, Euclid's algorithm stops at `b` with coefficients
/// zero and one, so a combination of them is its second weight.
pub proof fn lemma_euclid_pair_last(a: int, b: int, c0: int, c1: int)
    requires
        b != 0,
        trunc_rem(a, b) == 0,
    ensures
        gcd_spec(a, b) == b,
        euclid_pair(a, b) == (0int, 1int),
        c0 * euclid_pair(a, b).0 + c1 * euclid_pair(a, b).1 == c1,
{
    reveal_with_fuel(gcd_spec, 2);
    reveal_with_fuel(euclid_pair, 2);
    assert(trunc_div(a, b) * 0 == 0);
    assert(c0 * 0 + c1 * 1 == c1);
}

/// The weights one, zero and zero, one pick out the two coefficients.
pub proof fn lemma_euclid_pair_start(a: int, b: int)
    ensures
        euclid_pair(a, b).0 == 1 * euclid_pair(a, b).0 + 0 * euclid_pair(a, b).1,
        euclid_pair(a, b).1 == 0 * euclid_pair(a, b).0 + 1 * euclid_pair(a, b).1,
{
}

/// The coefficients that the iteration starts from are balanced.
pub proof fn lemma_coefficients_start(a: int, b: int)
    ensures
        coefficients_balanced(abs(b), a, b, 1, 0),
        coefficients_balanced(abs(a), a, b, 0, 1),
{
    assert(abs(b) * 1 + abs(a) * 0 == abs(b));
    assert(abs(b) * 0 + abs(a) * 1 == abs(a));
}

/// A combination of the coefficients for `a` and `b` is the combination of
/// those for `b` and the remainder that the iteration moves on to.
pub proof fn lemma_euclid_pair_step(a: int, b: int, c0: int, c1: int)
    requires
        b != 0,
    ensures
        c0 * euclid_pair(a, b).0 + c1 * euclid_pair(a, b).1 == c1 * euclid_pair(
            b,
            trunc_rem(a, b),
        ).0 + (c0 - trunc_div(a, b) * c1) * euclid_pair(b, trunc_rem(a, b)).1,
{
    let q = trunc_div(a, b);
    let (x, y) = euclid_pair(b, trunc_rem(a, b));
    assert(c0 * y + c1 * (x - q * y) == c1 * x + (c0 - q * c1) * y) by (nonlinear_arith);
}

} // verus!
