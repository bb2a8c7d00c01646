//! Fractions of 32-bit integers and their arithmetic.
//!
//! Every binary operator computes its result by cross multiplication in 32
//! bits and reduces it before returning. An integer operand counts as itself
//! over one. An operator is defined where each product and sum it forms can be
//! held and the unreduced result can be reduced.

use crate::math::division::{fits_i32, lemma_product_fits_i64, lemma_trunc_div_fits};
use crate::math::euclid::{gcd_spec, lemma_gcd_least_with_unit};
use crate::math::rational::{lemma_integer_forms, lemma_reduce, lemma_reduce_idempotent, Ratio};
use crate::math::{gcd, gcd_defined};
use std::ops::{Add, Div, Mul, Neg, Sub};
use vstd::prelude::*;

verus! {

/// An exact rational number: a numerator `q` over a denominator `d`.
///
/// Nothing is required of the two components. The denominator may be zero or
/// negative, and the pair need not be in lowest terms. Two fractions compare
/// equal when they stand for the same number, whatever their components.
#[derive(Debug, Clone, Copy)]
pub struct Fraction {
    pub q: i32,
    pub d: i32,
}

impl View for Fraction {
    type V = Ratio;

    open spec fn view(&self) -> Ratio {
        Ratio { num: self.q as int, den: self.d as int }
    }
}

/// The fraction whose components are those of `r`, which must fit.
pub open spec fn fraction_of(r: Ratio) -> Fraction
    recommends
        r.fits(),
{
    Fraction { q: r.num as i32, d: r.den as i32 }
}

/// The ratios that [`Fraction::reduce`] can bring to lowest terms: the
/// components have a greatest common divisor that [`gcd`] can compute, and
/// where one of them is the least integer that divisor is not minus one, so
/// that both quotients can be held.
pub open spec fn reducible(r: Ratio) -> bool {
    &&& gcd_defined(r.num, r.den)
    &&& (r.num == i32::MIN || r.den == i32::MIN) ==> gcd_spec(r.num, r.den) != -1
}

/// The unreduced results that a binary operator can finish: both components
/// can be held and the pair can be reduced.
pub open spec fn finishable(r: Ratio) -> bool {
    r.fits() && reducible(r)
}

/// Makes the fraction `a / b`. Any two integers are accepted as they are.
pub fn frac(a: i32, b: i32) -> (f: Fraction)
    ensures
        f.q == a,
        f.d == b,
{
    Fraction { q: a, d: b }
}

impl Fraction {
    /// Divides numerator and denominator by their greatest common divisor as
    /// [`gcd`] computes it.
    ///
    /// The result stands for the same number, and the `gcd` of its components
    /// is one, so that reducing it again changes nothing. Since `gcd` may be
    /// negative, both signs may change together.
    ///
    /// Defined where [`reducible`] holds: not for zero over zero.
    pub fn reduce(self) -> (r: Fraction)
        requires
            reducible(self@),
        ensures
            r@ == self@.reduce(),
            r@.equiv(self@),
            gcd_spec(r.q as int, r.d as int) == 1,
            reducible(r@),
            r@.reduce() == r@,
    {
        proof {
            lemma_reduce(self@);
            lemma_reduce_idempotent(self@);
            lemma_gcd_least_with_unit();
        }
        let g: i32 = gcd(self.q, self.d);
        proof {
            lemma_trunc_div_fits(self.q as int, g as int);
            lemma_trunc_div_fits(self.d as int, g as int);
        }
        frac(self.q / g, self.d / g)
    }
}

impl Neg for Fraction {
    type Output = Fraction;

    /// The fraction `-q / d`. Defined unless `q` is the least integer.
    fn neg(self) -> (r: Fraction)
        ensures
            r@ == self@.neg(),
    {
        frac(-self.q, self.d)
    }
}

impl vstd::std_specs::ops::NegSpecImpl for Fraction {
    open spec fn obeys_neg_spec() -> bool {
        true
    }

    open spec fn neg_req(self) -> bool {
        self.q != i32::MIN
    }

    open spec fn neg_spec(self) -> Fraction {
        fraction_of(self@.neg())
    }
}

impl Add for Fraction {
    type Output = Fraction;

    /// The sum `(q1 * d2 + q2 * d1) / (d1 * d2)`, reduced.
    ///
    /// Defined where the three products and their sum can be held in 32 bits
    /// and the pair they form can be reduced.
    fn add(self, rhs: Fraction) -> (r: Fraction)
        ensures
            r@ == self@.plus(rhs@).reduce(),
            r@.equiv(self@.plus(rhs@)),
    {
        let left: i32 = self.q * rhs.d;
        let right: i32 = rhs.q * self.d;
        let below: i32 = self.d * rhs.d;
        frac(left + right, below).reduce()
    }
}

impl vstd::std_specs::ops::AddSpecImpl for Fraction {
    open spec fn obeys_add_spec() -> bool {
        true
    }

    open spec fn add_req(self, rhs: Fraction) -> bool {
        &&& fits_i32(self.q * rhs.d)
        &&& fits_i32(rhs.q * self.d)
        &&& finishable(self@.plus(rhs@))
    }

    open spec fn add_spec(self, rhs: Fraction) -> Fraction {
        fraction_of(self@.plus(rhs@).reduce())
    }
}

impl Add<i32> for Fraction {
    type Output = Fraction;

    /// The sum with the integer `rhs`: `(q + rhs * d) / d`, reduced.
    ///
    /// Defined where the product and the sum can be held in 32 bits and the
    /// pair they form can be reduced.
    fn add(self, rhs: i32) -> (r: Fraction)
        ensures
            r@ == self@.plus(Ratio::integer(rhs as int)).reduce(),
            r@.equiv(self@.plus(Ratio::integer(rhs as int))),
    {
        proof {
            lemma_integer_forms(self@, rhs as int);
        }
        let whole: i32 = rhs * self.d;
        frac(self.q + whole, self.d).reduce()
    }
}

impl vstd::std_specs::ops::AddSpecImpl<i32> for Fraction {
    open spec fn obeys_add_spec() -> bool {
        true
    }

    open spec fn add_req(self, rhs: i32) -> bool {
        &&& fits_i32(rhs * self.d)
        &&& finishable(self@.plus(Ratio::integer(rhs as int)))
    }

    open spec fn add_spec(self, rhs: i32) -> Fraction {
        fraction_of(self@.plus(Ratio::integer(rhs as int)).reduce())
    }
}

impl Add<Fraction> for i32 {
    type Output = Fraction;

    /// The sum of the integer and `rhs`, which is `rhs + self`, and defined
    /// where that is.
    fn add(self, rhs: Fraction) -> (r: Fraction)
        ensures
            r@ == rhs@.plus(Ratio::integer(self as int)).reduce(),
            r@.equiv(rhs@.plus(Ratio::integer(self as int))),
    {
        rhs + self
    }
}

impl vstd::std_specs::ops::AddSpecImpl<Fraction> for i32 {
    open spec fn obeys_add_spec() -> bool {
        true
    }

    open spec fn add_req(self, rhs: Fraction) -> bool {
        &&& fits_i32(self * rhs.d)
        &&& finishable(rhs@.plus(Ratio::integer(self as int)))
    }

    open spec fn add_spec(self, rhs: Fraction) -> Fraction {
        fraction_of(rhs@.plus(Ratio::integer(self as int)).reduce())
    }
}

impl Sub for Fraction {
    type Output = Fraction;

    /// The difference `(q1 * d2 - q2 * d1) / (d1 * d2)`, reduced.
    ///
    /// Defined where the three products and the difference can be held in 32
    /// bits and the pair they form can be reduced.
    fn sub(self, rhs: Fraction) -> (r: Fraction)
        ensures
            r@ == self@.minus(rhs@).reduce(),
            r@.equiv(self@.minus(rhs@)),
    {
        let left: i32 = self.q * rhs.d;
        let right: i32 = rhs.q * self.d;
        let below: i32 = self.d * rhs.d;
        frac(left - right, below).reduce()
    }
}

impl vstd::std_specs::ops::SubSpecImpl for Fraction {
    open spec fn obeys_sub_spec() -> bool {
        true
    }

    open spec fn sub_req(self, rhs: Fraction) -> bool {
        &&& fits_i32(self.q * rhs.d)
        &&& fits_i32(rhs.q * self.d)
        &&& finishable(self@.minus(rhs@))
    }

    open spec fn sub_spec(self, rhs: Fraction) -> Fraction {
        fraction_of(self@.minus(rhs@).reduce())
    }
}

impl Sub<i32> for Fraction {
    type Output = Fraction;

    /// The difference with the integer `rhs`: `(q - rhs * d) / d`, reduced.
    ///
    /// Defined where the product and the difference can be held in 32 bits
    /// and the pair they form can be reduced.
    fn sub(self, rhs: i32) -> (r: Fraction)
        ensures
            r@ == self@.minus(Ratio::integer(rhs as int)).reduce(),
            r@.equiv(self@.minus(Ratio::integer(rhs as int))),
    {
        proof {
            lemma_integer_forms(self@, rhs as int);
        }
        let whole: i32 = rhs * self.d;
        frac(self.q - whole, self.d).reduce()
    }
}

impl vstd::std_specs::ops::SubSpecImpl<i32> for Fraction {
    open spec fn obeys_sub_spec() -> bool {
        true
    }

    open spec fn sub_req(self, rhs: i32) -> bool {
        &&& fits_i32(rhs * self.d)
        &&& finishable(self@.minus(Ratio::integer(rhs as int)))
    }

    open spec fn sub_spec(self, rhs: i32) -> Fraction {
        fraction_of(self@.minus(Ratio::integer(rhs as int)).reduce())
    }
}

impl Sub<Fraction> for i32 {
    type Output = Fraction;

    /// The integer less `rhs`: `(self * d - q) / d`, reduced.
    ///
    /// Defined where the product and the difference can be held in 32 bits
    /// and the pair they form can be reduced.
    fn sub(self, rhs: Fraction) -> (r: Fraction)
        ensures
            r@ == Ratio::integer(self as int).minus(rhs@).reduce(),
            r@.equiv(Ratio::integer(self as int).minus(rhs@)),
    {
        proof {
            lemma_integer_forms(rhs@, self as int);
        }
        let whole: i32 = self * rhs.d;
        frac(whole - rhs.q, rhs.d).reduce()
    }
}

impl vstd::std_specs::ops::SubSpecImpl<Fraction> for i32 {
    open spec fn obeys_sub_spec() -> bool {
        true
    }

    open spec fn sub_req(self, rhs: Fraction) -> bool {
        &&& fits_i32(self * rhs.d)
        &&& finishable(Ratio::integer(self as int).minus(rhs@))
    }

    open spec fn sub_spec(self, rhs: Fraction) -> Fraction {
        fraction_of(Ratio::integer(self as int).minus(rhs@).reduce())
    }
}

impl Mul for Fraction {
    type Output = Fraction;

    /// The product `(q1 * q2) / (d1 * d2)`, reduced.
    ///
    /// Defined where both products can be held in 32 bits and the pair they
    /// form can be reduced.
    fn mul(self, rhs: Fraction) -> (r: Fraction)
        ensures
            r@ == self@.times(rhs@).reduce(),
            r@.equiv(self@.times(rhs@)),
    {
        let above: i32 = self.q * rhs.q;
        let below: i32 = self.d * rhs.d;
        frac(above, below).reduce()
    }
}

impl vstd::std_specs::ops::MulSpecImpl for Fraction {
    open spec fn obeys_mul_spec() -> bool {
        true
    }

    open spec fn mul_req(self, rhs: Fraction) -> bool {
        finishable(self@.times(rhs@))
    }

    open spec fn mul_spec(self, rhs: Fraction) -> Fraction {
        fraction_of(self@.times(rhs@).reduce())
    }
}

impl Mul<i32> for Fraction {
    type Output = Fraction;

    /// The product with the integer `rhs`: `(q * rhs) / d`, reduced.
    ///
    /// Defined where the product can be held in 32 bits and the pair can be
    /// reduced.
    fn mul(self, rhs: i32) -> (r: Fraction)
        ensures
            r@ == self@.times(Ratio::integer(rhs as int)).reduce(),
            r@.equiv(self@.times(Ratio::integer(rhs as int))),
    {
        proof {
            lemma_integer_forms(self@, rhs as int);
        }
        let above: i32 = self.q * rhs;
        frac(above, self.d).reduce()
    }
}

impl vstd::std_specs::ops::MulSpecImpl<i32> for Fraction {
    open spec fn obeys_mul_spec() -> bool {
        true
    }

    open spec fn mul_req(self, rhs: i32) -> bool {
        finishable(self@.times(Ratio::integer(rhs as int)))
    }

    open spec fn mul_spec(self, rhs: i32) -> Fraction {
        fraction_of(self@.times(Ratio::integer(rhs as int)).reduce())
    }
}

impl Mul<Fraction> for i32 {
    type Output = Fraction;

    /// The product of the integer and `rhs`, which is `rhs * self`, and
    /// defined where that is.
    fn mul(self, rhs: Fraction) -> (r: Fraction)
        ensures
            r@ == rhs@.times(Ratio::integer(self as int)).reduce(),
            r@.equiv(rhs@.times(Ratio::integer(self as int))),
    {
        rhs * self
    }
}

impl vstd::std_specs::ops::MulSpecImpl<Fraction> for i32 {
    open spec fn obeys_mul_spec() -> bool {
        true
    }

    open spec fn mul_req(self, rhs: Fraction) -> bool {
        finishable(rhs@.times(Ratio::integer(self as int)))
    }

    open spec fn mul_spec(self, rhs: Fraction) -> Fraction {
        fraction_of(rhs@.times(Ratio::integer(self as int)).reduce())
    }
}

impl Div for Fraction {
    type Output = Fraction;

    /// The quotient `(q1 * d2) / (d1 * q2)`, reduced.
    ///
    /// Defined where both products can be held in 32 bits and the pair they
    /// form can be reduced. A divisor with numerator zero gives a result with
    /// denominator zero.
    fn div(self, rhs: Fraction) -> (r: Fraction)
        ensures
            r@ == self@.over(rhs@).reduce(),
            r@.equiv(self@.over(rhs@)),
    {
        let above: i32 = self.q * rhs.d;
        let below: i32 = self.d * rhs.q;
        frac(above, below).reduce()
    }
}

impl vstd::std_specs::ops::DivSpecImpl for Fraction {
    open spec fn obeys_div_spec() -> bool {
        true
    }

    open spec fn div_req(self, rhs: Fraction) -> bool {
        finishable(self@.over(rhs@))
    }

    open spec fn div_spec(self, rhs: Fraction) -> Fraction {
        fraction_of(self@.over(rhs@).reduce())
    }
}

impl Div<i32> for Fraction {
    type Output = Fraction;

    /// The quotient by the integer `rhs`: `q / (d * rhs)`, reduced.
    ///
    /// Defined where the product can be held in 32 bits and the pair can be
    /// reduced.
    fn div(self, rhs: i32) -> (r: Fraction)
        ensures
            r@ == self@.over(Ratio::integer(rhs as int)).reduce(),
            r@.equiv(self@.over(Ratio::integer(rhs as int))),
    {
        proof {
            lemma_integer_forms(self@, rhs as int);
        }
        let below: i32 = self.d * rhs;
        frac(self.q, below).reduce()
    }
}

impl vstd::std_specs::ops::DivSpecImpl<i32> for Fraction {
    open spec fn obeys_div_spec() -> bool {
        true
    }

    open spec fn div_req(self, rhs: i32) -> bool {
        finishable(self@.over(Ratio::integer(rhs as int)))
    }

    open spec fn div_spec(self, rhs: i32) -> Fraction {
        fraction_of(self@.over(Ratio::integer(rhs as int)).reduce())
    }
}

impl Div<Fraction> for i32 {
    type Output = Fraction;

    /// The integer divided by `rhs`: `(self * d) / q`, reduced.
    ///
    /// Defined where the product can be held in 32 bits and the pair can be
    /// reduced.
    fn div(self, rhs: Fraction) -> (r: Fraction)
        ensures
            r@ == Ratio::integer(self as int).over(rhs@).reduce(),
            r@.equiv(Ratio::integer(self as int).over(rhs@)),
    {
        proof {
            lemma_integer_forms(rhs@, self as int);
        }
        let above: i32 = rhs.d * self;
        frac(above, rhs.q).reduce()
    }
}

impl vstd::std_specs::ops::DivSpecImpl<Fraction> for i32 {
    open spec fn obeys_div_spec() -> bool {
        true
    }

    open spec fn div_req(self, rhs: Fraction) -> bool {
        finishable(Ratio::integer(self as int).over(rhs@))
    }

    open spec fn div_spec(self, rhs: Fraction) -> Fraction {
        fraction_of(Ratio::integer(self as int).over(rhs@).reduce())
    }
}

impl PartialEq for Fraction {
    /// Whether the two fractions stand for the same number: `q1 * d2 == q2 * d1`.
    ///
    /// The products are formed in 64 bits, so the comparison is defined for
    /// all fractions.
    fn eq(&self, other: &Fraction) -> (r: bool) {
        proof {
            lemma_product_fits_i64(self.q as int, other.d as int);
            lemma_product_fits_i64(self.d as int, other.q as int);
        }
        (self.q as i64) * (other.d as i64) == (self.d as i64) * (other.q as i64)
    }
}

impl vstd::std_specs::cmp::PartialEqSpecImpl for Fraction {
    open spec fn obeys_eq_spec() -> bool {
        true
    }

    open spec fn eq_spec(&self, other: &Fraction) -> bool {
        self@.equiv(other@)
    }
}

} // verus!
