use ctl::math::{frac, Fraction};

fn parts(f: Fraction) -> (i32, i32) {
    (f.q, f.d)
}

#[test]
fn frac_keeps_its_arguments() {
    assert_eq!(parts(frac(1, 2)), (1, 2));
    assert_eq!(parts(frac(2, 4)), (2, 4));
    assert_eq!(parts(frac(-3, 0)), (-3, 0));
    assert_eq!(parts(frac(0, 0)), (0, 0));
    assert_eq!(parts(frac(i32::MIN, i32::MAX)), (i32::MIN, i32::MAX));
}

#[test]
fn equality_is_by_cross_multiplication() {
    assert_eq!(frac(1, 2), frac(2, 4));
    assert_eq!(frac(1, 2), frac(-1, -2));
    assert_eq!(frac(-1, 2), frac(1, -2));
    assert_ne!(frac(1, 2), frac(1, 3));
    assert_ne!(frac(1, 2), frac(-1, 2));
    assert_ne!(frac(1, 2), frac(2, 1));
}

#[test]
fn equality_does_not_overflow() {
    assert_eq!(frac(i32::MAX, i32::MAX), frac(1, 1));
    assert_eq!(frac(i32::MIN, i32::MIN), frac(1, 1));
    assert_eq!(frac(i32::MIN, 2), frac(-1_073_741_824, 1));
    // 65536 * 65536 is zero in 32 bits.
    assert_ne!(frac(65536, 1), frac(0, 65536));
    assert_ne!(frac(i32::MAX, i32::MIN), frac(i32::MIN, i32::MAX));
}

#[test]
fn equality_is_reflexive_and_symmetric() {
    let samples = [frac(1, 2), frac(2, 4), frac(-3, 7), frac(0, 5), frac(5, 0), frac(0, 0)];
    for f in samples {
        assert!(f == f);
        for g in samples {
            assert_eq!(f == g, g == f);
        }
    }
}

#[test]
fn equality_is_transitive_through_a_fraction_that_is_not_zero_over_zero() {
    let samples = [
        frac(1, 2),
        frac(2, 4),
        frac(-3, -6),
        frac(-3, 7),
        frac(6, -14),
        frac(0, 5),
        frac(0, -1),
        frac(5, 0),
        frac(-2, 0),
    ];
    for f in samples {
        for g in samples {
            for h in samples {
                if f == g && g == h {
                    assert!(f == h);
                }
            }
        }
    }
}

#[test]
fn zero_over_zero_equals_every_fraction() {
    assert_eq!(frac(0, 0), frac(1, 2));
    assert_eq!(frac(0, 0), frac(1, 3));
    assert_ne!(frac(1, 2), frac(1, 3));
}

#[test]
fn scaling_both_components_keeps_the_value() {
    for k in [-9, -1, 1, 2, 1000] {
        for (q, d) in [(1, 2), (-3, 7), (0, 5), (5, 0), (184, 711)] {
            assert_eq!(frac(q, d), frac(q * k, d * k));
        }
    }
}

#[test]
fn reduce_divides_by_the_gcd() {
    assert_eq!(parts(frac(2, 4).reduce()), (1, 2));
    assert_eq!(parts(frac(4, 4).reduce()), (1, 1));
    assert_eq!(parts(frac(10, 4).reduce()), (5, 2));
    assert_eq!(parts(frac(184, 711).reduce()), (184, 711));
    assert_eq!(parts(frac(0, 5).reduce()), (0, 1));
    assert_eq!(parts(frac(5, 0).reduce()), (1, 0));
    assert_eq!(parts(frac(i32::MIN, 2).reduce()), (-1_073_741_824, 1));
}

#[test]
fn reduce_may_change_both_signs() {
    assert_eq!(parts(frac(-6, -9).reduce()), (2, 3));
    assert_eq!(parts(frac(6, -9).reduce()), (-2, 3));
    assert_eq!(parts(frac(-6, 9).reduce()), (-2, 3));
    assert_eq!(parts(frac(1, -2).reduce()), (1, -2));
    assert_eq!(parts(frac(-1, 2).reduce()), (1, -2));
    assert_eq!(parts(frac(-4424, 46).reduce()), (2212, -23));
}

#[test]
fn reduce_keeps_the_value() {
    for q in -20..=20 {
        for d in -20..=20 {
            if q == 0 && d == 0 {
                continue;
            }
            assert_eq!(frac(q, d).reduce(), frac(q, d));
        }
    }
}

#[test]
fn reduce_is_idempotent() {
    for q in -20..=20 {
        for d in -20..=20 {
            if q == 0 && d == 0 {
                continue;
            }
            let once = frac(q, d).reduce();
            let twice = once.reduce();
            assert_eq!(parts(twice), parts(once));
            assert_eq!(twice, once);
        }
    }
}

#[test]
fn scaled_fractions_reduce_to_the_same() {
    for k in [-4, -1, 2, 3] {
        for q in -10..=10 {
            for d in -10..=10 {
                if q == 0 && d == 0 {
                    continue;
                }
                assert_eq!(parts(frac(k * q, k * d).reduce()), parts(frac(q, d).reduce()));
            }
        }
    }
}

#[test]
fn negation_changes_the_numerator() {
    assert_eq!(parts(-frac(1, 2)), (-1, 2));
    assert_eq!(parts(-frac(-3, -6)), (3, -6));
    assert_eq!(parts(-frac(0, 4)), (0, 4));
    assert_eq!(parts(-frac(i32::MAX, 1)), (-i32::MAX, 1));
}

#[test]
fn sum_of_fractions() {
    assert_eq!(frac(1, 2) + frac(1, 2), frac(1, 1));
    assert_eq!(parts(frac(1, 2) + frac(1, 2)), (1, 1));
    assert_eq!(parts(frac(1, 2) + frac(1, 3)), (5, 6));
    assert_eq!(parts(frac(1, 3) + frac(1, 6)), (1, 2));
    assert_ne!(frac(1, 2) + frac(1, 3), frac(2, 5));
}

#[test]
fn difference_of_fractions() {
    assert_eq!(frac(1, 2) - frac(7, 3), frac(-11, 6));
    assert_eq!(parts(frac(1, 2) - frac(7, 3)), (-11, 6));
    assert_eq!(parts(frac(3, 4) - frac(1, 4)), (1, 2));
}

#[test]
fn product_of_fractions() {
    assert_eq!(frac(23, 79) * frac(8, 9), frac(184, 711));
    assert_eq!(parts(frac(23, 79) * frac(8, 9)), (184, 711));
    assert_eq!(parts(frac(2, 3) * frac(3, 4)), (1, 2));
}

#[test]
fn quotient_of_fractions() {
    assert_eq!(frac(-56, 2) / frac(23, 79), frac(-2212, 23));
    assert_eq!(parts(frac(-56, 2) / frac(23, 79)), (2212, -23));
    assert_eq!(parts(frac(1, 2) / frac(1, 4)), (2, 1));
}

#[test]
fn sum_with_an_integer() {
    assert_eq!(frac(1, 2) + 3, frac(7, 2));
    assert_eq!(parts(frac(1, 2) + 3), (7, 2));
    assert_eq!(parts(3 + frac(1, 2)), (7, 2));
    assert_eq!(parts(frac(2, 4) + 1), (3, 2));
}

#[test]
fn difference_with_an_integer() {
    assert_eq!(3 - frac(1, 2), frac(5, 2));
    assert_eq!(parts(3 - frac(1, 2)), (5, 2));
    assert_eq!(frac(1, 2) - 3, frac(-5, 2));
    assert_eq!(parts(frac(7, 2) - 3), (1, 2));
}

#[test]
fn product_with_an_integer() {
    assert_eq!(parts(frac(1, 2) * 3), (3, 2));
    assert_eq!(parts(3 * frac(1, 2)), (3, 2));
    assert_eq!(parts(frac(1, 4) * 2), (1, 2));
}

#[test]
fn quotient_with_an_integer() {
    assert_eq!(parts(frac(1, 2) / 3), (1, 6));
    assert_eq!(parts(frac(4, 3) / 2), (2, 3));
    assert_eq!(parts(3 / frac(1, 2)), (6, 1));
    assert_eq!(parts(2 / frac(4, 3)), (3, 2));
}

#[test]
fn an_integer_operand_is_the_integer_over_one() {
    for n in [-5, -1, 1, 2, 7] {
        for (q, d) in [(1, 2), (-3, 7), (6, 4), (5, -10)] {
            let f = frac(q, d);
            let whole = frac(n, 1);
            assert_eq!(parts(f + n), parts(f + whole));
            assert_eq!(parts(n + f), parts(f + whole));
            assert_eq!(parts(f - n), parts(f - whole));
            assert_eq!(parts(n - f), parts(whole - f));
            assert_eq!(parts(f * n), parts(f * whole));
            assert_eq!(parts(n * f), parts(f * whole));
            assert_eq!(parts(f / n), parts(f / whole));
            assert_eq!(parts(n / f), parts(whole / f));
        }
    }
}

#[test]
fn operators_return_fractions_in_lowest_terms() {
    for (q, d) in [(1, 2), (-3, 7), (6, 4), (5, -10)] {
        for (p, e) in [(2, 3), (-4, 6), (9, 3)] {
            let f = frac(q, d);
            let g = frac(p, e);
            for r in [f + g, f - g, f * g, f / g] {
                assert_eq!(parts(r.reduce()), parts(r));
            }
        }
    }
}
