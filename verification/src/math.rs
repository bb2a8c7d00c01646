//! Greatest common divisors and fractions of 32-bit integers.

pub mod division;
pub mod euclid;
pub mod fraction;
pub mod iteration;
pub mod rational;

pub use crate::math::fraction::{frac, Fraction};

use crate::math::division::{
    abs, divides, lemma_divides_quotient, lemma_square_order, lemma_trunc_div_fits,
    lemma_trunc_div_rem, lemma_trunc_div_rem_unique, trunc_rem,
};
use crate::math::euclid::{
    euclid_pair, gcd_spec, lemma_euclid_pair_identity, lemma_euclid_pair_zero, lemma_gcd_divides,
    lemma_gcd_greatest, lemma_gcd_swap,
};
use crate::math::iteration::{
    coefficients_balanced, lemma_coefficient_step, lemma_coefficients_start,
    lemma_euclid_pair_last, lemma_euclid_pair_start, lemma_euclid_pair_step,
};
use vstd::prelude::*;

verus! {

/// The pairs on which [`gcd`] is defined: not both zero, and not the least
/// integer together with minus one, whose remainder the machine cannot take.
pub open spec fn gcd_defined(a: int, b: int) -> bool {
    &&& !(a == 0 && b == 0)
    &&& !(a == i32::MIN && b == -1)
    &&& !(a == -1 && b == i32::MIN)
}

/// Computes a greatest common divisor of `a` and `b` by Euclid's algorithm.
///
/// The result divides both arguments and every common divisor divides it. It
/// is not normalised to be positive: it carries the sign of the last nonzero
/// remainder, as [`gcd_spec`] defines. Callers that want the positive divisor
/// take the absolute value.
pub fn gcd(a: i32, b: i32) -> (g: i32)
    requires
        gcd_defined(a as int, b as int),
    ensures
        g == gcd_spec(a as int, b as int),
        g != 0,
        divides(g as int, a as int),
        divides(g as int, b as int),
        forall|d: int|
            divides(d, a as int) && divides(d, b as int) ==> #[trigger] divides(d, g as int),
        trunc_rem(a as int, g as int) == 0,
        trunc_rem(b as int, g as int) == 0,
    decreases abs(b as int),
{
    proof {
        lemma_gcd_divides(a as int, b as int);
        lemma_divides_quotient(gcd_spec(a as int, b as int), a as int);
        lemma_divides_quotient(gcd_spec(a as int, b as int), b as int);
        assert forall|d: int| divides(d, a as int) && divides(d, b as int) implies divides(
            d,
            gcd_spec(a as int, b as int),
        ) by {
            lemma_gcd_greatest(a as int, b as int, d);
        }
    }
    if b == 0 {
        return a;
    }
    proof {
        lemma_trunc_div_rem(a as int, b as int);
        lemma_trunc_div_fits(a as int, b as int);
    }
    gcd(b, a % b)
}

/// The pairs on which [`extended_gcd`] is defined.
///
/// With `b` zero the result is the magnitude of `a`, which the least integer
/// lacks. The pair may not be the least integer with minus one, in either
/// order, because the machine cannot take that quotient.
pub open spec fn extended_gcd_defined(a: int, b: int) -> bool {
    &&& b == 0 ==> a != i32::MIN
    &&& !(a == i32::MIN && b == -1)
    &&& !(a == -1 && b == i32::MIN)
}

/// What [`extended_gcd`] returns: the divisor and the two coefficients.
///
/// With `b` zero it is the magnitude of `a` with coefficients one and zero.
/// Otherwise it is `gcd_spec(a, b)` with the coefficients that Euclid's
/// algorithm yields for `a` and `b` in the order given.
pub open spec fn extended_gcd_spec(a: int, b: int) -> (int, int, int) {
    if b == 0 {
        (abs(a), 1, 0)
    } else {
        (gcd_spec(a, b), euclid_pair(a, b).0, euclid_pair(a, b).1)
    }
}

/// Computes a greatest common divisor `g` of `a` and `b` together with
/// coefficients `s` and `t` of Bézout's identity, and returns `(g, s, t)`.
///
/// With `b` zero the result is `(|a|, 1, 0)`. Otherwise `g` is `gcd(a, b)`
/// and `a * s + b * t == g` for the arguments as given; with `a` zero that is
/// `(b, 0, 1)`.
#[verifier::loop_isolation(false)]
pub fn extended_gcd(a: i32, b: i32) -> (r: (i32, i32, i32))
    requires
        extended_gcd_defined(a as int, b as int),
    ensures
        (r.0 as int, r.1 as int, r.2 as int) == extended_gcd_spec(a as int, b as int),
        b != 0 ==> r.0 == gcd_spec(a as int, b as int),
        b != 0 ==> divides(r.0 as int, a as int) && divides(r.0 as int, b as int),
        b != 0 ==> a * r.1 + b * r.2 == r.0,
        b == 0 ==> r.0 == abs(a as int) && r.1 == 1 && r.2 == 0,
        a == 0 && b != 0 ==> r.0 == b && r.1 == 0 && r.2 == 1,
{
    if b == 0 {
        let magnitude: i32 = if a < 0 {
            -a
        } else {
            a
        };
        return (magnitude, 1, 0);
    }
    proof {
        lemma_euclid_pair_identity(a as int, b as int);
        lemma_gcd_divides(a as int, b as int);
    }
    if a == 0 {
        proof {
            lemma_euclid_pair_zero(b as int);
        }
        return (b, 0, 1);
    }
    let ghost given = (a as int, b as int);
    let mut a: i32 = a;
    let mut b: i32 = b;
    let mut swapped: bool = false;
    proof {
        lemma_square_order(a as int, b as int);
        lemma_square_order(b as int, a as int);
    }
    if (a as i64) * (a as i64) < (b as i64) * (b as i64) {
        proof {
            lemma_gcd_swap(a as int, b as int);
        }
        let larger: i32 = b;
        b = a;
        a = larger;
        swapped = true;
    }
    let ghost first = a as int;
    let ghost second = b as int;

    let mut s0: i32 = 1;
    let mut s1: i32 = 0;
    let mut t0: i32 = 0;
    let mut t1: i32 = 1;
    proof {
        lemma_coefficients_start(first, second);
        lemma_euclid_pair_start(first, second);
    }

    loop
        invariant
            b != 0,
            abs(a as int) >= abs(b as int),
            !(a == i32::MIN && b == -1),
            gcd_spec(a as int, b as int) == gcd_spec(first, second),
            euclid_pair(first, second).0 == s0 * euclid_pair(a as int, b as int).0 + s1
                * euclid_pair(a as int, b as int).1,
            euclid_pair(first, second).1 == t0 * euclid_pair(a as int, b as int).0 + t1
                * euclid_pair(a as int, b as int).1,
            coefficients_balanced(abs(second), a as int, b as int, s0 as int, s1 as int),
            coefficients_balanced(abs(first), a as int, b as int, t0 as int, t1 as int),
            abs(first) <= 0x8000_0000,
            abs(second) <= 0x8000_0000,
            swapped ==> (second, first) == given && abs(given.0) < abs(given.1) && given.0 != 0,
            !swapped ==> (first, second) == given,
        decreases abs(b as int),
    {
        proof {
            lemma_trunc_div_rem(a as int, b as int);
            lemma_trunc_div_fits(a as int, b as int);
        }
        let q: i32 = a / b;
        let r: i32 = a % b;

        if r == 0 {
            proof {
                lemma_euclid_pair_last(a as int, b as int, s0 as int, s1 as int);
                lemma_euclid_pair_last(a as int, b as int, t0 as int, t1 as int);
            }
            if swapped {
                return (b, t1, s1);
            }
            return (b, s1, t1);
        }
        proof {
            lemma_coefficient_step(abs(second), a as int, b as int, s0 as int, s1 as int);
            lemma_coefficient_step(abs(first), a as int, b as int, t0 as int, t1 as int);
            lemma_euclid_pair_step(a as int, b as int, s0 as int, s1 as int);
            lemma_euclid_pair_step(a as int, b as int, t0 as int, t1 as int);
            if b == i32::MIN {
                lemma_trunc_div_rem_unique(a as int, b as int, 1, 0);
            }
        }
        let s3: i32 = s0 - q * s1;
        let t3: i32 = t0 - q * t1;

        s0 = s1;
        s1 = s3;

        t0 = t1;
        t1 = t3;

        a = b;
        b = r;
    }
}

/// Bézout's identity for what [`extended_gcd`] returns when the second
/// argument is not zero: the divisor is `gcd_spec(a, b)`, and it is the first
/// argument times the first coefficient plus the second argument times the
/// second.
pub proof fn lemma_extended_gcd_identity(a: int, b: int)
    requires
        b != 0,
    ensures
        extended_gcd_spec(a, b).0 == gcd_spec(a, b),
        a * extended_gcd_spec(a, b).1 + b * extended_gcd_spec(a, b).2 == extended_gcd_spec(a, b).0,
{
    lemma_euclid_pair_identity(a, b);
}

} // verus!
