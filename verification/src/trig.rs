//! Sine, cosine and the two-argument arctangent in fixed point.
//!
//! An angle is first reduced to an eighth of a turn around zero, where a
//! short alternating series converges quickly; the quadrant then decides
//! which of the two series gives the sine and which the cosine, and with
//! which sign.

use crate::fixed::{
    div_fixed, fixed_product, fixed_quotient, lemma_product_bounds, lemma_quotient_bounds,
    magnitude, mul_fixed, Fixed, HALF_PI, ONE, PI, QUARTER_PI,
};
use vstd::prelude::*;

verus! {

/// The number of factors in the series of the sine.
pub const SINE_TERMS: u32 = 8;

/// The number of factors in the series of the cosine.
pub const COSINE_TERMS: u32 = 9;

/// The number of terms in the series of the arctangent.
pub const ARCTANGENT_TERMS: u32 = 20;

/// tan(π/8), rounded down: above it the arctangent is taken of
/// `(1 - t) / (1 + t)` and subtracted from π/4.
pub const TAN_EIGHTH_PI: i64 = 414_213_562_373_095;

/// The nested series `1 - z/(n(n+1)) * (1 - z/((n+2)(n+3)) * (1 - ...))` with
/// `depth` factors. With `z = x^2` it is `cos x` for `n = 1` and `sin x / x`
/// for `n = 2`.
pub open spec fn alternating_series(z: int, n: int, depth: nat) -> int
    decreases depth,
{
    if depth == 0 {
        ONE as int
    } else {
        ONE - fixed_product(z, alternating_series(z, n + 2, (depth - 1) as nat)) / (n * (n + 1))
    }
}

/// How many quarter turns lie nearest to `angle`.
pub open spec fn quarter_turns(angle: int) -> int {
    (angle + QUARTER_PI) / (HALF_PI as int)
}

/// What is left of `angle` once its quarter turns are taken away: at most an
/// eighth of a turn to either side of zero.
pub open spec fn reduced_angle(angle: int) -> int {
    angle - quarter_turns(angle) * HALF_PI
}

/// The sine of an angle within an eighth of a turn of zero.
pub open spec fn octant_sine(r: int) -> int {
    fixed_product(r, alternating_series(fixed_product(r, r), 2, SINE_TERMS as nat))
}

/// The cosine of an angle within an eighth of a turn of zero.
pub open spec fn octant_cosine(r: int) -> int {
    alternating_series(fixed_product(r, r), 1, COSINE_TERMS as nat)
}

/// The sine of `angle`.
pub open spec fn sine(angle: int) -> int {
    let r = reduced_angle(angle);
    let q = quarter_turns(angle) % 4;
    if q == 0 {
        octant_sine(r)
    } else if q == 1 {
        octant_cosine(r)
    } else if q == 2 {
        -octant_sine(r)
    } else {
        -octant_cosine(r)
    }
}

/// The cosine of `angle`.
pub open spec fn cosine(angle: int) -> int {
    let r = reduced_angle(angle);
    let q = quarter_turns(angle) % 4;
    if q == 0 {
        octant_cosine(r)
    } else if q == 1 {
        -octant_sine(r)
    } else if q == 2 {
        -octant_cosine(r)
    } else {
        octant_sine(r)
    }
}

/// The series stays between 0 and 1 while `z` is at most 2.
pub proof fn lemma_alternating_series_bounds(z: int, n: int, depth: nat)
    requires
        0 <= z <= 2 * ONE,
        n >= 1,
    ensures
        0 <= alternating_series(z, n, depth) <= ONE,
        z == 0 ==> alternating_series(z, n, depth) == ONE,
    decreases depth,
{
    if depth > 0 {
        let inner = alternating_series(z, n + 2, (depth - 1) as nat);
        lemma_alternating_series_bounds(z, n + 2, (depth - 1) as nat);
        lemma_product_bounds(z, inner);
        let p = fixed_product(z, inner);
        let d = n * (n + 1);
        assert(d >= 2) by (nonlinear_arith)
            requires
                d == n * (n + 1),
                n >= 1,
        ;
        vstd::arithmetic::div_mod::lemma_div_is_ordered_by_denominator(p, 2, d);
        vstd::arithmetic::div_mod::lemma_div_pos_is_pos(p, d);
    }
}

/// The reduced angle lies within an eighth of a turn of zero.
pub proof fn lemma_reduced_angle_bounds(angle: int)
    ensures
        -QUARTER_PI <= reduced_angle(angle) <= QUARTER_PI,
        0 <= quarter_turns(angle) % 4 < 4,
        -QUARTER_PI <= angle <= QUARTER_PI ==> quarter_turns(angle) == 0,
{
    let t = angle + QUARTER_PI;
    let h = HALF_PI as int;
    vstd::arithmetic::div_mod::lemma_fundamental_div_mod(t, h);
    assert(h * (t / h) == (t / h) * h) by (nonlinear_arith);
    if -QUARTER_PI <= angle <= QUARTER_PI {
        vstd::arithmetic::div_mod::lemma_basic_div(t, h);
    }
}

/// Within an eighth of a turn the sine is at most the angle in magnitude, and
/// the cosine lies between 0 and 1.
pub proof fn lemma_octant_bounds(r: int)
    requires
        -QUARTER_PI <= r <= QUARTER_PI,
    ensures
        magnitude(octant_sine(r)) <= magnitude(r),
        0 <= octant_cosine(r) <= ONE,
        0 <= fixed_product(r, r) <= ONE,
        r == 0 ==> octant_sine(r) == 0 && octant_cosine(r) == ONE,
{
    let z = fixed_product(r, r);
    lemma_product_bounds(r, r);
    lemma_alternating_series_bounds(z, 2, SINE_TERMS as nat);
    lemma_alternating_series_bounds(z, 1, COSINE_TERMS as nat);
    lemma_product_bounds(r, alternating_series(z, 2, SINE_TERMS as nat));
}

/// Sine and cosine never leave the interval from -1 to 1, and at the angle 0
/// they are 0 and 1.
pub proof fn lemma_sine_cosine_bounds(angle: int)
    ensures
        -ONE <= sine(angle) <= ONE,
        -ONE <= cosine(angle) <= ONE,
        sine(0) == 0,
        cosine(0) == ONE,
{
    lemma_reduced_angle_bounds(angle);
    lemma_octant_bounds(reduced_angle(angle));
    lemma_reduced_angle_bounds(0);
    lemma_octant_bounds(0);
}

/// The sine is odd and the cosine is even, exactly: products round toward
/// zero, and the eighth of a turn that angles are reduced to reaches as far
/// below zero as above it.
pub proof fn lemma_sine_odd_cosine_even(angle: int)
    ensures
        sine(-angle) == -sine(angle),
        cosine(-angle) == cosine(angle),
{
    let h = HALF_PI as int;
    let k = quarter_turns(angle);
    let r = reduced_angle(angle);
    lemma_reduced_angle_bounds(angle);
    assert(-angle + QUARTER_PI == h * (-k) + (QUARTER_PI - r)) by (nonlinear_arith)
        requires
            r == angle - k * h,
    ;
    vstd::arithmetic::div_mod::lemma_fundamental_div_mod_converse(
        -angle + QUARTER_PI,
        h,
        -k,
        QUARTER_PI - r,
    );
    assert(quarter_turns(-angle) == -k);
    assert(reduced_angle(-angle) == -r) by (nonlinear_arith)
        requires
            reduced_angle(-angle) == -angle - (-k) * h,
            r == angle - k * h,
    ;
    lemma_product_bounds(r, r);
    lemma_product_bounds(r, -r);
    lemma_product_bounds(-r, r);
    assert(fixed_product(-r, -r) == fixed_product(r, r));
    lemma_product_bounds(r, alternating_series(fixed_product(r, r), 2, SINE_TERMS as nat));
}

/// The angle of a point changes sign when the point is mirrored at the x
/// axis, unless it lies on that axis.
pub proof fn lemma_arctangent2_mirror(y: int, x: int)
    requires
        y != 0,
    ensures
        arctangent2(-y, x) == -arctangent2(y, x),
{
}

/// Evaluates the alternating series from its innermost factor outward.
fn eval_alternating_series(z: Fixed, first: u32, depth: u32) -> (r: Fixed)
    requires
        0 <= z <= 2 * ONE,
        1 <= first <= 2,
        depth <= 16,
    ensures
        r == alternating_series(z as int, first as int, depth as nat),
        0 <= r <= ONE,
{
    let mut acc: i64 = ONE;
    let mut j: u32 = depth;
    while j > 0
        invariant
            j <= depth <= 16,
            1 <= first <= 2,
            0 <= z <= 2 * ONE,
            acc == alternating_series(z as int, first + 2 * j, (depth - j) as nat),
            0 <= acc <= ONE,
        decreases j,
    {
        j = j - 1;
        let m: i64 = (first + 2 * j) as i64;
        proof {
            lemma_product_bounds(z as int, acc as int);
            lemma_alternating_series_bounds(z as int, m as int, (depth - j) as nat);
            assert(2 <= m * (m + 1) <= 1190) by (nonlinear_arith)
                requires
                    1 <= m <= 34,
            ;
        }
        let p: i64 = mul_fixed(z, acc);
        acc = ONE - p / (m * (m + 1));
    }
    acc
}

/// The sine and the cosine of `angle`, in this order.
///
/// Within a turn of zero the results are a few units of `10^-15` from the
/// true values. Further out each quarter turn adds the rounding of π/2, four
/// parts in `10^16`, to the reduced angle.
pub fn sin_cos(angle: Fixed) -> (r: (Fixed, Fixed))
    ensures
        r.0 == sine(angle as int),
        r.1 == cosine(angle as int),
        -ONE <= r.0 <= ONE,
        -ONE <= r.1 <= ONE,
{
    let shifted: i128 = angle as i128 + QUARTER_PI as i128;
    let half: i128 = HALF_PI as i128;
    let turns: i128 = if shifted >= 0 {
        shifted / half
    } else {
        -((-shifted - 1) / half) - 1
    };
    proof {
        let t = shifted as int;
        let h = half as int;
        if t >= 0 {
            assert(turns == t / h);
        } else {
            let u = -t - 1;
            vstd::arithmetic::div_mod::lemma_fundamental_div_mod(u, h);
            assert(h * (u / h) == (u / h) * h) by (nonlinear_arith);
            assert(t == h * turns + (h - 1 - u % h)) by (nonlinear_arith)
                requires
                    u == h * (u / h) + u % h,
                    t == -u - 1,
                    turns == -(u / h) - 1,
            ;
            vstd::arithmetic::div_mod::lemma_fundamental_div_mod_converse(
                t,
                h,
                turns as int,
                h - 1 - u % h,
            );
        }
        assert(turns == quarter_turns(angle as int));
        lemma_reduced_angle_bounds(angle as int);
        lemma_octant_bounds(reduced_angle(angle as int));
    }
    let rest: i64 = (angle as i128 - turns * half) as i64;
    let quadrant: i128 = ((turns % 4) + 4) % 4;
    assert(quadrant == quarter_turns(angle as int) % 4);
    let z: i64 = mul_fixed(rest, rest);
    let s: i64 = mul_fixed(rest, eval_alternating_series(z, 2, SINE_TERMS));
    let c: i64 = eval_alternating_series(z, 1, COSINE_TERMS);
    if quadrant == 0 {
        (s, c)
    } else if quadrant == 1 {
        (c, -s)
    } else if quadrant == 2 {
        (-s, -c)
    } else {
        (-c, s)
    }
}

/// The series `1/(2k+1) - w * (1/(2k+3) - w * (...))` with `depth` terms. With
/// `w = u^2` and `k = 0` it is `arctan u / u`.
pub open spec fn arctangent_series(w: int, k: int, depth: nat) -> int
    decreases depth,
{
    if depth == 0 {
        0
    } else {
        (ONE as int) / (2 * k + 1) - fixed_product(w, arctangent_series(w, k + 1, (depth - 1) as nat))
    }
}

/// The arctangent of a `u` between 0 and 1, by its series around zero.
pub open spec fn arctangent_small(u: int) -> int {
    fixed_product(u, arctangent_series(fixed_product(u, u), 0, ARCTANGENT_TERMS as nat))
}

/// The arctangent of a `t` between 0 and 1: up to tan(π/8) by the series,
/// above it as π/4 less the arctangent of `(1 - t) / (1 + t)`.
pub open spec fn arctangent_unit(t: int) -> int {
    if t <= TAN_EIGHTH_PI {
        arctangent_small(t)
    } else {
        QUARTER_PI - arctangent_small(fixed_quotient(ONE - t, ONE + t))
    }
}

/// The angle of the point `(x, y)` as seen from the origin, between -π and π:
/// the arctangent of the smaller coordinate over the larger one, counted
/// from the nearer axis. The origin itself has the angle 0.
pub open spec fn arctangent2(y: int, x: int) -> int {
    let ay = magnitude(y);
    let ax = magnitude(x);
    let acute = if ay == 0 && ax == 0 {
        0
    } else if ay <= ax {
        arctangent_unit(fixed_quotient(ay, ax))
    } else {
        HALF_PI - arctangent_unit(fixed_quotient(ax, ay))
    };
    let upper = if x >= 0 {
        acute
    } else {
        PI - acute
    };
    if y >= 0 {
        upper
    } else {
        -upper
    }
}

/// The arctangent series stays between 0 and its first term while `w` is at
/// most 1.
pub proof fn lemma_arctangent_series_bounds(w: int, k: int, depth: nat)
    requires
        0 <= w <= ONE,
        k >= 0,
    ensures
        0 <= arctangent_series(w, k, depth) <= (ONE as int) / (2 * k + 1),
    decreases depth,
{
    vstd::arithmetic::div_mod::lemma_div_pos_is_pos(ONE as int, 2 * k + 1);
    if depth > 0 {
        let inner = arctangent_series(w, k + 1, (depth - 1) as nat);
        lemma_arctangent_series_bounds(w, k + 1, (depth - 1) as nat);
        lemma_product_bounds(inner, w);
        vstd::arithmetic::div_mod::lemma_div_is_ordered_by_denominator(
            ONE as int,
            2 * k + 1,
            2 * k + 3,
        );
    }
}

/// The arctangent of a number between 0 and 1 lies between 0 and π/4, and
/// that of 0 is 0.
pub proof fn lemma_arctangent_unit_bounds(t: int)
    requires
        0 <= t <= ONE,
    ensures
        0 <= arctangent_unit(t) <= QUARTER_PI,
        arctangent_unit(0) == 0,
{
    lemma_arctangent_small_bounds(t);
    lemma_arctangent_small_bounds(0);
    if t > TAN_EIGHTH_PI {
        lemma_quotient_bounds(ONE - t, ONE + t);
        lemma_arctangent_small_bounds(fixed_quotient(ONE - t, ONE + t));
    }
}

/// The series of the arctangent gives at most its argument.
pub proof fn lemma_arctangent_small_bounds(u: int)
    requires
        0 <= u <= ONE,
    ensures
        0 <= arctangent_small(u) <= u,
        0 <= fixed_product(u, u) <= ONE,
{
    let w = fixed_product(u, u);
    lemma_product_bounds(u, u);
    lemma_arctangent_series_bounds(w, 0, ARCTANGENT_TERMS as nat);
    lemma_product_bounds(u, arctangent_series(w, 0, ARCTANGENT_TERMS as nat));
}

/// The angle of a point lies between -π and π; on the positive x axis it is
/// 0, and it changes sign with `y`.
pub proof fn lemma_arctangent2_bounds(y: int, x: int)
    ensures
        -PI <= arctangent2(y, x) <= PI,
        y >= 0 ==> arctangent2(y, x) >= 0,
        y < 0 ==> arctangent2(y, x) <= 0,
        y == 0 && x >= 0 ==> arctangent2(y, x) == 0,
{
    let ay = magnitude(y);
    let ax = magnitude(x);
    if ay == 0 && ax == 0 {
    } else if ay <= ax {
        lemma_quotient_bounds(ay, ax);
        lemma_arctangent_unit_bounds(fixed_quotient(ay, ax));
    } else {
        lemma_quotient_bounds(ax, ay);
        lemma_arctangent_unit_bounds(fixed_quotient(ax, ay));
    }
}

/// Evaluates the arctangent series from its last term outward.
fn eval_arctangent_series(w: Fixed, depth: u32) -> (r: Fixed)
    requires
        0 <= w <= ONE,
        depth <= 32,
    ensures
        r == arctangent_series(w as int, 0, depth as nat),
        0 <= r <= ONE,
{
    let mut acc: i64 = 0;
    let mut j: u32 = depth;
    proof {
        lemma_arctangent_series_bounds(w as int, depth as int, 0);
    }
    while j > 0
        invariant
            j <= depth <= 32,
            0 <= w <= ONE,
            acc == arctangent_series(w as int, j as int, (depth - j) as nat),
            0 <= acc <= (ONE as int) / (2 * j + 1),
        decreases j,
    {
        j = j - 1;
        let odd: i64 = (2 * j + 1) as i64;
        proof {
            lemma_product_bounds(acc as int, w as int);
            lemma_arctangent_series_bounds(w as int, j as int, (depth - j) as nat);
            lemma_arctangent_series_bounds(w as int, j + 1, (depth - j - 1) as nat);
        }
        let p: i64 = mul_fixed(w, acc);
        acc = ONE / odd - p;
    }
    acc
}

/// The arctangent of a `u` between 0 and 1 by the series.
fn atan_small(u: Fixed) -> (r: Fixed)
    requires
        0 <= u <= ONE,
    ensures
        r == arctangent_small(u as int),
{
    proof {
        lemma_product_bounds(u as int, u as int);
        lemma_arctangent_small_bounds(u as int);
    }
    let w: i64 = mul_fixed(u, u);
    let series: i64 = eval_arctangent_series(w, ARCTANGENT_TERMS);
    proof {
        lemma_product_bounds(u as int, series as int);
    }
    mul_fixed(u, series)
}

/// The arctangent of a `t` between 0 and 1.
fn atan_unit(t: Fixed) -> (r: Fixed)
    requires
        0 <= t <= ONE,
    ensures
        r == arctangent_unit(t as int),
        0 <= r <= QUARTER_PI,
{
    proof {
        lemma_arctangent_unit_bounds(t as int);
    }
    if t <= TAN_EIGHTH_PI {
        atan_small(t)
    } else {
        proof {
            lemma_quotient_bounds(ONE - t, ONE + t);
        }
        let u: i64 = div_fixed(ONE - t, ONE + t);
        QUARTER_PI - atan_small(u)
    }
}

/// The ratio of two magnitudes, the first of which does not exceed the
/// second.
fn unit_ratio(small: i128, large: i128) -> (r: Fixed)
    requires
        0 <= small <= large <= 0x8000_0000_0000_0000,
        0 < large,
    ensures
        r == fixed_quotient(small as int, large as int),
        0 <= r <= ONE,
{
    proof {
        lemma_quotient_bounds(small as int, large as int);
        assert(0 <= small * ONE <= 0x8000_0000_0000_0000 * ONE) by (nonlinear_arith)
            requires
                0 <= small <= 0x8000_0000_0000_0000,
        ;
    }
    let wide: i128 = small * (ONE as i128);
    (wide / large) as i64
}

/// The angle of the point `(x, y)` as seen from the origin, between -π and
/// π, for any two coordinates.
pub fn atan2(y: Fixed, x: Fixed) -> (r: Fixed)
    ensures
        r == arctangent2(y as int, x as int),
        -PI <= r <= PI,
{
    proof {
        lemma_arctangent2_bounds(y as int, x as int);
    }
    let ay: i128 = if y >= 0 {
        y as i128
    } else {
        -(y as i128)
    };
    let ax: i128 = if x >= 0 {
        x as i128
    } else {
        -(x as i128)
    };
    let acute: i64 = if ay == 0 && ax == 0 {
        0
    } else if ay <= ax {
        atan_unit(unit_ratio(ay, ax))
    } else {
        HALF_PI - atan_unit(unit_ratio(ax, ay))
    };
    let upper: i64 = if x >= 0 {
        acute
    } else {
        PI - acute
    };
    if y >= 0 {
        upper
    } else {
        -upper
    }
}

} // verus!
