use ctl::math::{extended_gcd, frac, gcd, Fraction};

#[test]
fn test_gcd() {
    assert_eq!(gcd(713, 552), 23);
    assert_eq!(gcd(713, 0), 713);
    assert_eq!(gcd(552, 713), 23);
    assert_eq!(gcd(-552, -713), -23);
    assert_eq!(gcd(11253, 2607), 33);
    assert_eq!(gcd(-11253, 2607), -33);
}

#[test]
fn test_extended_gcd() {
    assert_eq!(extended_gcd(161, 28), (7, -1, 6));
    assert_eq!(extended_gcd(713, 552), (23, 7, -9));
    assert_eq!(extended_gcd(713, 0), (713, 1, 0));
    assert_eq!(extended_gcd(552, 713), (23, -9, 7));
    assert_eq!(extended_gcd(-552, -713), (-23, -9, 7));
    assert_eq!(extended_gcd(11253, 2607), (33, 19, -82));
}

#[test]
fn test_fractions() {
    let a = frac(1, 2);
    let b = frac(7, 3);
    let c = Fraction { q: 8, d: 9 };
    let d = Fraction { q: 23, d: 79 };
    let e = Fraction { q: -56, d: 2 };

    assert_eq!(a + a, Fraction { q: 2, d: 2 });
    assert_eq!(a - b, Fraction { q: -11, d: 6 });
    assert_eq!(d * c, Fraction { q: 184, d: 711 });
    assert_eq!(e / d, Fraction { q: -2212, d: 23 });
}
