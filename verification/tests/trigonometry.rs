use libration::fixed::{HALF_PI, ONE, PI, QUARTER_PI, TWO_PI};
use libration::trig::{atan2, sin_cos};

fn to_float(v: i64) -> f64 {
    v as f64 / 1e15
}

#[test]
fn sine_and_cosine_at_zero() {
    assert_eq!(sin_cos(0), (0, ONE));
}

#[test]
fn sine_and_cosine_at_the_quarter_turns() {
    assert_eq!(sin_cos(HALF_PI), (ONE, 0));
    assert_eq!(sin_cos(-HALF_PI), (-ONE, 0));
    assert_eq!(sin_cos(PI), (1, -ONE));
    assert_eq!(sin_cos(TWO_PI), (-2, ONE));
}

#[test]
fn sine_and_cosine_of_one_radian() {
    assert_eq!(sin_cos(ONE), (841_470_984_807_897, 540_302_305_868_140));
    assert_eq!(sin_cos(-2 * ONE), (-909_297_426_825_683, -416_146_836_547_142));
}

#[test]
fn sine_and_cosine_follow_the_float_functions() {
    let mut angle: i64 = -2 * TWO_PI;
    while angle <= 2 * TWO_PI {
        let (s, c) = sin_cos(angle);
        let x = to_float(angle);
        assert!((to_float(s) - x.sin()).abs() < 1e-14, "sin at {}", angle);
        assert!((to_float(c) - x.cos()).abs() < 1e-14, "cos at {}", angle);
        angle += 7_919_000_000_000;
    }
}

#[test]
fn sine_and_cosine_stay_within_one() {
    let angles: [i64; 8] = [
        i64::MIN,
        i64::MAX,
        HALF_PI - 1,
        HALF_PI + 1,
        QUARTER_PI,
        -QUARTER_PI - 1,
        100 * ONE,
        -9_000 * ONE,
    ];
    for angle in angles {
        let (s, c) = sin_cos(angle);
        assert!(-ONE <= s && s <= ONE);
        assert!(-ONE <= c && c <= ONE);
    }
}

#[test]
fn sine_and_cosine_far_from_zero() {
    let (s, c) = sin_cos(100 * ONE);
    assert!((to_float(s) - 100f64.sin()).abs() < 1e-13);
    assert!((to_float(c) - 100f64.cos()).abs() < 1e-13);
}

#[test]
fn squares_of_sine_and_cosine_add_to_one() {
    let mut angle: i64 = -PI;
    while angle <= PI {
        let (s, c) = sin_cos(angle);
        let sum = to_float(s) * to_float(s) + to_float(c) * to_float(c);
        assert!((sum - 1.0).abs() < 1e-14);
        angle += 10_007_000_000_000;
    }
}

#[test]
fn arctangent_on_the_axes() {
    assert_eq!(atan2(0, 0), 0);
    assert_eq!(atan2(0, ONE), 0);
    assert_eq!(atan2(ONE, 0), HALF_PI);
    assert_eq!(atan2(0, -ONE), PI);
    assert_eq!(atan2(-ONE, 0), -HALF_PI);
}

#[test]
fn arctangent_on_the_diagonals() {
    assert_eq!(atan2(ONE, ONE), QUARTER_PI);
    assert_eq!(atan2(-ONE, ONE), -QUARTER_PI);
    assert_eq!(atan2(ONE, -ONE), PI - QUARTER_PI);
    assert_eq!(atan2(-ONE, -ONE), QUARTER_PI - PI);
}

#[test]
fn arctangent_of_given_points() {
    assert_eq!(atan2(ONE, 2 * ONE), 463_647_609_000_806);
    assert_eq!(atan2(-3 * ONE, -4 * ONE), -2_498_091_544_796_508);
}

#[test]
fn arctangent_follows_the_float_function() {
    let coordinates: [i64; 9] = [
        -2 * ONE,
        -ONE,
        -414_213_562_373_096,
        -1,
        0,
        7,
        414_213_562_373_095,
        ONE,
        1_999_999_999_999_999,
    ];
    for y in coordinates {
        for x in coordinates {
            let angle = to_float(atan2(y, x));
            let expected = to_float(y).atan2(to_float(x));
            assert!((angle - expected).abs() < 1e-14, "atan2({}, {})", y, x);
        }
    }
}

#[test]
fn arctangent_takes_every_coordinate() {
    let extremes: [i64; 4] = [i64::MIN, i64::MAX, 1, -1];
    for y in extremes {
        for x in extremes {
            let angle = atan2(y, x);
            assert!(-PI <= angle && angle <= PI);
            assert!((to_float(angle) - (y as f64).atan2(x as f64)).abs() < 1e-14);
        }
    }
}

#[test]
fn arctangent_undoes_sine_and_cosine() {
    let mut angle: i64 = -PI + 1;
    while angle < PI {
        let (s, c) = sin_cos(angle);
        assert!((atan2(s, c) - angle).abs() <= 10, "at {}", angle);
        angle += 3_001_000_000_000;
    }
}

#[test]
fn sine_is_odd_and_cosine_is_even() {
    let angles: [i64; 7] = [
        1,
        QUARTER_PI,
        QUARTER_PI + 1,
        HALF_PI,
        1_234_567_890_123_456,
        PI,
        7_000 * ONE,
    ];
    for angle in angles {
        let (s, c) = sin_cos(angle);
        assert_eq!(sin_cos(-angle), (-s, c));
    }
}

#[test]
fn arctangent_mirrors_at_the_x_axis() {
    let points: [(i64, i64); 4] = [(ONE, 2 * ONE), (1, -ONE), (3 * ONE, -1), (5, 0)];
    for (y, x) in points {
        assert_eq!(atan2(-y, x), -atan2(y, x));
    }
    assert_eq!(atan2(0, -ONE), PI);
}
