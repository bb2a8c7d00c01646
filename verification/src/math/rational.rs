//! Ratios of mathematical integers: the values that fractions stand for, with
//! the arithmetic and the equivalence that the machine type carries out on
//! 32-bit components.

use crate::math::division::{fits_i32, lemma_divides_quotient, trunc_div};
use crate::math::euclid::{gcd_spec, lemma_gcd_divides, lemma_gcd_scale};
use vstd::prelude::*;

verus! {

/// A numerator over a denominator, neither of them bounded and the
/// denominator not required to be nonzero.
pub struct Ratio {
    pub num: int,
    pub den: int,
}

impl Ratio {
    /// The integer `n` as a ratio, `n` over one.
    pub open spec fn integer(n: int) -> Ratio {
        Ratio { num: n, den: 1 }
    }

    /// Whether both components can be held in an `i32`.
    pub open spec fn fits(self) -> bool {
        fits_i32(self.num) && fits_i32(self.den)
    }

    /// Whether both components are zero. Such a ratio stands for no number
    /// and is equivalent to every ratio.
    pub open spec fn is_void(self) -> bool {
        self.num == 0 && self.den == 0
    }

    /// Whether the two ratios stand for the same number, decided by cross
    /// multiplication so that neither needs to be in lowest terms.
    pub open spec fn equiv(self, other: Ratio) -> bool {
        self.num * other.den == other.num * self.den
    }

    /// The ratio with both components divided by their `gcd_spec`.
    pub open spec fn reduce(self) -> Ratio {
        Ratio {
            num: trunc_div(self.num, gcd_spec(self.num, self.den)),
            den: trunc_div(self.den, gcd_spec(self.num, self.den)),
        }
    }

    /// The negated ratio.
    pub open spec fn neg(self) -> Ratio {
        Ratio { num: -self.num, den: self.den }
    }

    /// The sum by cross multiplication, not reduced.
    pub open spec fn plus(self, other: Ratio) -> Ratio {
        Ratio { num: self.num * other.den + other.num * self.den, den: self.den * other.den }
    }

    /// The difference by cross multiplication, not reduced.
    pub open spec fn minus(self, other: Ratio) -> Ratio {
        Ratio { num: self.num * other.den - other.num * self.den, den: self.den * other.den }
    }

    /// The product, not reduced.
    pub open spec fn times(self, other: Ratio) -> Ratio {
        Ratio { num: self.num * other.num, den: self.den * other.den }
    }

    /// The quotient, not reduced.
    pub open spec fn over(self, other: Ratio) -> Ratio {
        Ratio { num: self.num * other.den, den: self.den * other.num }
    }
}

/// Every ratio is equivalent to itself.
pub proof fn lemma_equiv_reflexive(f: Ratio)
    ensures
        f.equiv(f),
{
}

/// Equivalence does not depend on the order of the two ratios.
pub proof fn lemma_equiv_symmetric(f: Ratio, g: Ratio)
    ensures
        f.equiv(g) == g.equiv(f),
{
}

/// Two ratios equivalent to a third are equivalent to each other, provided
/// the third is not zero over zero.
pub proof fn lemma_equiv_transitive(f: Ratio, g: Ratio, h: Ratio)
    requires
        f.equiv(g),
        g.equiv(h),
        !g.is_void(),
    ensures
        f.equiv(h),
{
    assert(f.num * h.den == h.num * f.den) by (nonlinear_arith)
        requires
            f.num * g.den == g.num * f.den,
            g.num * h.den == h.num * g.den,
            g.num != 0 || g.den != 0,
    ;
}

/// Multiplying numerator and denominator by the same integer gives an
/// equivalent ratio.
pub proof fn lemma_equiv_scale(f: Ratio, k: int)
    ensures
        f.equiv(Ratio { num: f.num * k, den: f.den * k }),
{
    assert(f.num * (f.den * k) == (f.num * k) * f.den) by (nonlinear_arith);
}

/// Reduction divides exactly, keeps the number that the ratio stands for, and
/// leaves components whose `gcd_spec` is one.
pub proof fn lemma_reduce(f: Ratio)
    requires
        !f.is_void(),
    ensures
        f.num == f.reduce().num * gcd_spec(f.num, f.den),
        f.den == f.reduce().den * gcd_spec(f.num, f.den),
        f.reduce().equiv(f),
        !f.reduce().is_void(),
        gcd_spec(f.reduce().num, f.reduce().den) == 1,
{
    let g = gcd_spec(f.num, f.den);
    let r = f.reduce();
    lemma_gcd_divides(f.num, f.den);
    lemma_divides_quotient(g, f.num);
    lemma_divides_quotient(g, f.den);
    assert(r.num * f.den == f.num * r.den) by (nonlinear_arith)
        requires
            f.num == r.num * g,
            f.den == r.den * g,
    ;
    lemma_gcd_scale(g, r.num, r.den);
    assert(g * r.num == f.num && g * r.den == f.den) by (nonlinear_arith)
        requires
            f.num == r.num * g,
            f.den == r.den * g,
    ;
    assert(gcd_spec(r.num, r.den) == 1) by (nonlinear_arith)
        requires
            g == g * gcd_spec(r.num, r.den),
            g != 0,
    ;
}

/// Reducing a reduced ratio changes nothing.
pub proof fn lemma_reduce_idempotent(f: Ratio)
    requires
        !f.is_void(),
    ensures
        f.reduce().reduce() == f.reduce(),
{
    lemma_reduce(f);
    let r = f.reduce();
    assert(trunc_div(r.num, 1) == r.num && trunc_div(r.den, 1) == r.den);
}

/// Sums and products do not depend on the order of the operands.
pub proof fn lemma_commutative(f: Ratio, g: Ratio)
    ensures
        f.plus(g) == g.plus(f),
        f.times(g) == g.times(f),
{
    assert(f.num * g.den + g.num * f.den == g.num * f.den + f.num * g.den);
    assert(f.den * g.den == g.den * f.den) by (nonlinear_arith);
    assert(f.num * g.num == g.num * f.num) by (nonlinear_arith);
}

/// An integer enters a sum, a difference, a product or a quotient as itself
/// over one.
pub proof fn lemma_integer_forms(f: Ratio, n: int)
    ensures
        f.plus(Ratio::integer(n)) == (Ratio { num: f.num + n * f.den, den: f.den }),
        f.minus(Ratio::integer(n)) == (Ratio { num: f.num - n * f.den, den: f.den }),
        Ratio::integer(n).minus(f) == (Ratio { num: n * f.den - f.num, den: f.den }),
        f.times(Ratio::integer(n)) == (Ratio { num: f.num * n, den: f.den }),
        f.over(Ratio::integer(n)) == (Ratio { num: f.num, den: f.den * n }),
        Ratio::integer(n).over(f) == (Ratio { num: n * f.den, den: f.num }),
{
    assert(f.num * 1 == f.num && f.den * 1 == f.den && 1 * f.den == f.den && 1 * f.num == f.num);
}

} // verus!
