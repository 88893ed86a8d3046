use libration::fixed::{div_fixed, mul_fixed, sqrt_fixed, HALF_PI, ONE, PI, QUARTER_PI, TWO_PI};

#[test]
fn constants_are_consistent() {
    assert_eq!(ONE, 1_000_000_000_000_000);
    assert_eq!(TWO_PI, 2 * PI);
    assert_eq!(HALF_PI, 2 * QUARTER_PI + 1);
    assert!((PI as f64 / 1e15 - std::f64::consts::PI).abs() < 1e-15);
    assert!((HALF_PI as f64 / 1e15 - std::f64::consts::FRAC_PI_2).abs() < 1e-15);
}

#[test]
fn product_of_whole_numbers_is_exact() {
    assert_eq!(mul_fixed(3 * ONE, 2 * ONE), 6 * ONE);
    assert_eq!(mul_fixed(3 * ONE, -2 * ONE), -6 * ONE);
    assert_eq!(mul_fixed(-3 * ONE, -2 * ONE), 6 * ONE);
    assert_eq!(mul_fixed(7 * ONE, ONE), 7 * ONE);
    assert_eq!(mul_fixed(7 * ONE, 0), 0);
}

#[test]
fn product_rounds_toward_zero() {
    // 1.5 * -2.333333333333333 = -3.4999999999999995
    assert_eq!(mul_fixed(3 * ONE / 2, -7 * ONE / 3), -3_499_999_999_999_999);
    assert_eq!(mul_fixed(-1, ONE / 2), 0);
    assert_eq!(mul_fixed(1, ONE - 1), 0);
    assert_eq!(mul_fixed(-3, ONE / 2), -1);
    assert_eq!(mul_fixed(3, ONE / 2), 1);
}

#[test]
fn product_changes_sign_with_a_factor() {
    let a: i64 = 1_234_567_890_123_456;
    let b: i64 = 987_654_321_098_765;
    assert_eq!(mul_fixed(-a, b), -mul_fixed(a, b));
    assert_eq!(mul_fixed(a, -b), -mul_fixed(a, b));
    assert_eq!(mul_fixed(a, b), mul_fixed(b, a));
}

#[test]
fn quotient_rounds_toward_zero() {
    assert_eq!(div_fixed(ONE, 3 * ONE), 333_333_333_333_333);
    assert_eq!(div_fixed(-ONE, 3 * ONE), -333_333_333_333_333);
    assert_eq!(div_fixed(7 * ONE, ONE / 2), 14 * ONE);
    assert_eq!(div_fixed(-3 * ONE, 2 * ONE), -1_500_000_000_000_000);
    assert_eq!(div_fixed(0, 5), 0);
    assert_eq!(div_fixed(5 * ONE, ONE), 5 * ONE);
}

#[test]
fn square_root_is_the_floor_of_the_root() {
    assert_eq!(sqrt_fixed(4 * ONE), 2 * ONE);
    assert_eq!(sqrt_fixed(2 * ONE), 1_414_213_562_373_095);
    assert_eq!(sqrt_fixed(ONE / 4), ONE / 2);
    assert_eq!(sqrt_fixed(ONE), ONE);
    assert_eq!(sqrt_fixed(0), 0);
    assert_eq!(sqrt_fixed(1), 31_622_776);
    assert_eq!(sqrt_fixed(i64::MAX), 96_038_388_349_944_605);
}

#[test]
fn square_root_brackets_its_argument() {
    let values: [i64; 6] = [1, 17, 999_999_999_999_999, ONE + 1, 123_456_789_012_345_678, i64::MAX];
    for v in values {
        let r = sqrt_fixed(v) as i128;
        let n = v as i128 * ONE as i128;
        assert!(r * r <= n);
        assert!(n < (r + 1) * (r + 1));
    }
}
