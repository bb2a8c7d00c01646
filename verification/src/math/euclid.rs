//! The Euclidean algorithm on mathematical integers: the divisor it finds, the
//! coefficients that go with it, and what holds of both.

use crate::math::division::{
    abs, divides, lemma_divides_multiple, lemma_divides_quotient, lemma_trunc_div_rem,
    lemma_trunc_div_rem_unique, trunc_div, trunc_rem,
};
use vstd::prelude::*;

verus! {

/// The divisor that Euclid's algorithm reaches from `a` and `b` when every
/// remainder takes the sign of its dividend.
///
/// Its magnitude is the greatest common divisor. Its sign is that of the last
/// nonzero remainder, so it may be negative.
pub open spec fn gcd_spec(a: int, b: int) -> int
    decreases abs(b),
{
    if b == 0 {
        a
    } else {
        proof {
            lemma_trunc_div_rem(a, b);
        }
        gcd_spec(b, trunc_rem(a, b))
    }
}

/// The coefficients `(x, y)` that Euclid's algorithm yields for `a` and `b`:
/// `a * x + b * y` is `gcd_spec(a, b)`.
pub open spec fn euclid_pair(a: int, b: int) -> (int, int)
    decreases abs(b),
{
    if b == 0 {
        (1, 0)
    } else {
        proof {
            lemma_trunc_div_rem(a, b);
        }
        let (x, y) = euclid_pair(b, trunc_rem(a, b));
        (y, x - trunc_div(a, b) * y)
    }
}

/// Bézout's identity for the coefficients of [`euclid_pair`].
pub proof fn lemma_euclid_pair_identity(a: int, b: int)
    ensures
        a * euclid_pair(a, b).0 + b * euclid_pair(a, b).1 == gcd_spec(a, b),
    decreases abs(b),
{
    if b != 0 {
        lemma_trunc_div_rem(a, b);
        let q = trunc_div(a, b);
        let r = trunc_rem(a, b);
        lemma_euclid_pair_identity(b, r);
        let (x, y) = euclid_pair(b, r);
        assert(a * y + b * (x - q * y) == b * x + r * y) by (nonlinear_arith)
            requires
                a == q * b + r,
        ;
    }
}

/// Unless both arguments are zero, `gcd_spec` is a nonzero common divisor of them.
pub proof fn lemma_gcd_divides(a: int, b: int)
    requires
        a != 0 || b != 0,
    ensures
        gcd_spec(a, b) != 0,
        divides(gcd_spec(a, b), a),
        divides(gcd_spec(a, b), b),
    decreases abs(b),
{
    let g = gcd_spec(a, b);
    if b == 0 {
        lemma_divides_multiple(g, 1);
        lemma_divides_multiple(g, 0);
    } else {
        lemma_trunc_div_rem(a, b);
        let q = trunc_div(a, b);
        let r = trunc_rem(a, b);
        lemma_gcd_divides(b, r);
        lemma_divides_quotient(g, b);
        lemma_divides_quotient(g, r);
        let kb = b / g;
        let kr = r / g;
        assert(a == (q * kb + kr) * g) by (nonlinear_arith)
            requires
                a == q * b + r,
                b == kb * g,
                r == kr * g,
        ;
        lemma_divides_multiple(g, q * kb + kr);
    }
}

/// Every common divisor of `a` and `b` divides `gcd_spec(a, b)`: in magnitude
/// it is the greatest of them.
pub proof fn lemma_gcd_greatest(a: int, b: int, d: int)
    requires
        divides(d, a),
        divides(d, b),
    ensures
        divides(d, gcd_spec(a, b)),
{
    lemma_euclid_pair_identity(a, b);
    let (x, y) = euclid_pair(a, b);
    lemma_divides_quotient(d, a);
    lemma_divides_quotient(d, b);
    let ka = a / d;
    let kb = b / d;
    assert(a * x + b * y == (ka * x + kb * y) * d) by (nonlinear_arith)
        requires
            a == ka * d,
            b == kb * d,
    ;
    lemma_divides_multiple(d, ka * x + kb * y);
}

/// Scaling both arguments by a nonzero `k` scales `gcd_spec` by `k`, sign included.
pub proof fn lemma_gcd_scale(k: int, a: int, b: int)
    requires
        k != 0,
    ensures
        gcd_spec(k * a, k * b) == k * gcd_spec(a, b),
    decreases abs(b),
{
    if b == 0 {
        assert(k * b == 0) by (nonlinear_arith)
            requires
                b == 0,
        ;
    } else {
        lemma_trunc_div_rem(a, b);
        let q = trunc_div(a, b);
        let r = trunc_rem(a, b);
        assert({
            &&& k * b != 0
            &&& k * a == q * (k * b) + k * r
            &&& abs(k * r) < abs(k * b)
            &&& (k * a >= 0 ==> k * r >= 0)
            &&& (k * a <= 0 ==> k * r <= 0)
        }) by (nonlinear_arith)
            requires
                k != 0,
                b != 0,
                a == q * b + r,
                abs(r) < abs(b),
                a >= 0 ==> r >= 0,
                a <= 0 ==> r <= 0,
        ;
        lemma_trunc_div_rem_unique(k * a, k * b, q, k * r);
        lemma_gcd_scale(k, b, r);
    }
}

/// When the first argument is nonzero and the smaller in magnitude, the two
/// arguments may change places.
pub proof fn lemma_gcd_swap(a: int, b: int)
    requires
        a != 0,
        abs(a) < abs(b),
    ensures
        gcd_spec(a, b) == gcd_spec(b, a),
        euclid_pair(a, b) == (euclid_pair(b, a).1, euclid_pair(b, a).0),
{
    lemma_trunc_div_rem_unique(a, b, 0, a);
    assert(trunc_div(a, b) * euclid_pair(b, a).1 == 0) by (nonlinear_arith)
        requires
            trunc_div(a, b) == 0,
    ;
}

/// With a first argument of zero the algorithm stops at the second, with
/// coefficients zero and one.
pub proof fn lemma_euclid_pair_zero(b: int)
    requires
        b != 0,
    ensures
        gcd_spec(0, b) == b,
        euclid_pair(0, b) == (0int, 1int),
{
    lemma_trunc_div_rem_unique(0, b, 0, 0);
    reveal_with_fuel(gcd_spec, 2);
    reveal_with_fuel(euclid_pair, 2);
    assert(trunc_div(0, b) * 0 == 0);
}

/// The least 32-bit integer and minus one, in either order, have `gcd_spec`
/// minus one.
pub proof fn lemma_gcd_least_with_unit()
    ensures
        gcd_spec(i32::MIN as int, -1) == -1,
        gcd_spec(-1, i32::MIN as int) == -1,
{
    reveal_with_fuel(gcd_spec, 3);
}

/// Arguments of one sign give a `gcd_spec` of that sign.
pub proof fn lemma_gcd_sign(a: int, b: int)
    ensures
        a > 0 && b >= 0 ==> gcd_spec(a, b) > 0,
        a < 0 && b <= 0 ==> gcd_spec(a, b) < 0,
        a >= 0 && b > 0 ==> gcd_spec(a, b) > 0,
        a <= 0 && b < 0 ==> gcd_spec(a, b) < 0,
    decreases abs(b),
{
    if b != 0 {
        lemma_trunc_div_rem(a, b);
        lemma_gcd_sign(b, trunc_rem(a, b));
    }
}

} // verus!
