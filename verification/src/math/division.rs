//! Truncating division as the machine performs it on signed integers, stated
//! over mathematical integers.

use vstd::prelude::*;

verus! {

/// Absolute value of an integer.
pub open spec fn abs(x: int) -> int {
    if x < 0 {
        -x
    } else {
        x
    }
}

/// Whether `x` can be held in an `i32`.
pub open spec fn fits_i32(x: int) -> bool {
    i32::MIN <= x <= i32::MAX
}

/// Quotient of `a` by `b` rounded toward zero.
pub open spec fn trunc_div(a: int, b: int) -> int {
    if a >= 0 {
        a / b
    } else {
        -((-a) / b)
    }
}

/// Remainder of `a` by `b` that goes with [`trunc_div`]: its sign follows `a`.
pub open spec fn trunc_rem(a: int, b: int) -> int {
    if a >= 0 {
        a % b
    } else {
        -((-a) % b)
    }
}

/// Whether `d` is a nonzero integer that divides `n` exactly.
pub open spec fn divides(d: int, n: int) -> bool {
    d != 0 && n % d == 0
}

/// Quotient and remainder rebuild the dividend, and the remainder is smaller
/// in magnitude than the divisor and never of the opposite sign to the dividend.
pub proof fn lemma_trunc_div_rem(a: int, b: int)
    by (nonlinear_arith)
    requires
        b != 0,
    ensures
        a == trunc_div(a, b) * b + trunc_rem(a, b),
        abs(trunc_rem(a, b)) < abs(b),
        a >= 0 ==> trunc_rem(a, b) >= 0,
        a <= 0 ==> trunc_rem(a, b) <= 0,
{
}

/// The magnitudes of dividend, divisor, quotient and remainder satisfy the
/// division identity of the natural numbers, and the quotient is negative
/// only when dividend and divisor differ in sign.
pub proof fn lemma_trunc_div_rem_abs(a: int, b: int)
    by (nonlinear_arith)
    requires
        b != 0,
    ensures
        abs(a) == abs(trunc_div(a, b)) * abs(b) + abs(trunc_rem(a, b)),
        (a >= 0 && b > 0) || (a <= 0 && b < 0) ==> trunc_div(a, b) >= 0,
        (a >= 0 && b < 0) || (a <= 0 && b > 0) ==> trunc_div(a, b) <= 0,
{
}

/// A truncating quotient is no larger in magnitude than its dividend, and
/// strictly smaller once the divisor is not a unit.
pub proof fn lemma_trunc_div_bound(a: int, b: int)
    by (nonlinear_arith)
    requires
        b != 0,
    ensures
        abs(trunc_div(a, b)) <= abs(a),
        a != 0 && abs(b) >= 2 ==> abs(trunc_div(a, b)) < abs(a),
{
}

/// Any pair `q`, `r` that rebuilds `a` from `b` with a remainder of the right
/// size and sign is the truncating quotient and remainder.
pub proof fn lemma_trunc_div_rem_unique(a: int, b: int, q: int, r: int)
    requires
        b != 0,
        a == q * b + r,
        abs(r) < abs(b),
        a >= 0 ==> r >= 0,
        a <= 0 ==> r <= 0,
    ensures
        q == trunc_div(a, b),
        r == trunc_rem(a, b),
{
    lemma_trunc_div_rem(a, b);
    let q0 = trunc_div(a, b);
    let r0 = trunc_rem(a, b);
    assert((q - q0) * b == r0 - r) by (nonlinear_arith)
        requires
            a == q * b + r,
            a == q0 * b + r0,
    ;
    assert(q == q0) by (nonlinear_arith)
        requires
            (q - q0) * b == r0 - r,
            -abs(b) < r0 - r < abs(b),
    ;
}

/// A nonzero `d` divides `n` exactly when `n` is an integer multiple of `d`.
pub proof fn lemma_divides_multiple(d: int, k: int)
    by (nonlinear_arith)
    requires
        d != 0,
    ensures
        divides(d, k * d),
        (k * d) / d == k,
{
}

/// A dividend that `d` divides is `d` times the quotient.
pub proof fn lemma_divides_quotient(d: int, n: int)
    by (nonlinear_arith)
    requires
        divides(d, n),
    ensures
        n == (n / d) * d,
        n == trunc_div(n, d) * d,
        trunc_rem(n, d) == 0,
{
}

/// The one truncating division of 32-bit integers whose quotient cannot be
/// held is that of the least integer by minus one.
pub proof fn lemma_trunc_div_fits(a: int, b: int)
    requires
        fits_i32(a),
        fits_i32(b),
        b != 0,
        !(a == i32::MIN && b == -1),
    ensures
        fits_i32(trunc_div(a, b)),
        fits_i32(trunc_rem(a, b)),
{
    lemma_trunc_div_bound(a, b);
    lemma_trunc_div_rem(a, b);
}

/// The product of two 32-bit integers can be held in 64 bits.
pub proof fn lemma_product_fits_i64(x: int, y: int)
    by (nonlinear_arith)
    requires
        fits_i32(x),
        fits_i32(y),
    ensures
        -0x4000_0000_0000_0000 <= x * y <= 0x4000_0000_0000_0000,
        x * y == y * x,
{
}

/// Squares compare as magnitudes do.
pub proof fn lemma_square_order(a: int, b: int)
    by (nonlinear_arith)
    ensures
        a * a < b * b <==> abs(a) < abs(b),
        0 <= a * a,
        fits_i32(a) ==> a * a <= 0x4000_0000_0000_0000,
{
}

} // verus!
