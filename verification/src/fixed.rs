//! Decimal fixed-point arithmetic.
//!
//! Every quantity of the simulation (angles in radians, lengths in world
//! units, the eccentricity, the phase) is an `i64` that counts units of
//! `10^-15`. Products and quotients round toward zero, so that negating an
//! operand negates the result.

use vstd::prelude::*;

verus! {

/// A number in units of `10^-15`.
pub type Fixed = i64;

/// The number 1.
pub const ONE: i64 = 1_000_000_000_000_000;

/// π, rounded down.
pub const PI: i64 = 3_141_592_653_589_793;

/// 2π, exactly twice `PI`.
pub const TWO_PI: i64 = 6_283_185_307_179_586;

/// π/2, rounded to nearest.
pub const HALF_PI: i64 = 1_570_796_326_794_897;

/// π/4, rounded down; `HALF_PI == 2 * QUARTER_PI + 1`.
pub const QUARTER_PI: i64 = 785_398_163_397_448;

/// The magnitude of `x`.
pub open spec fn magnitude(x: int) -> int {
    if x >= 0 {
        x
    } else {
        -x
    }
}

/// `n / d` rounded toward zero, for a positive `d`.
pub open spec fn trunc_div(n: int, d: int) -> int
    recommends
        d > 0,
{
    if n >= 0 {
        n / d
    } else {
        -((-n) / d)
    }
}

/// The fixed-point product: `a * b / 10^15`, rounded toward zero.
pub open spec fn fixed_product(a: int, b: int) -> int {
    trunc_div(a * b, ONE as int)
}

/// The fixed-point quotient: `a * 10^15 / b`, rounded toward zero, for a
/// positive `b`.
pub open spec fn fixed_quotient(a: int, b: int) -> int
    recommends
        b > 0,
{
    trunc_div(a * ONE, b)
}

/// `r` is the integer square root of `n`: the largest integer whose square
/// does not exceed `n`.
pub open spec fn is_floor_root(n: int, r: int) -> bool {
    0 <= r && r * r <= n < (r + 1) * (r + 1)
}

/// The fixed-point square root of `v`: the integer square root of
/// `v * 10^15`.
pub open spec fn fixed_root(v: int) -> int {
    choose|r: int| #[trigger] is_floor_root(v * ONE, r)
}

/// Rounding toward zero never moves a quotient past the exact one: the
/// result times the divisor lies within one divisor of the numerator, on the
/// numerator's side of zero.
pub proof fn lemma_trunc_div_bounds(n: int, d: int)
    requires
        d > 0,
    ensures
        n >= 0 ==> 0 <= trunc_div(n, d) * d <= n < (trunc_div(n, d) + 1) * d,
        n <= 0 ==> (trunc_div(n, d) - 1) * d < n <= trunc_div(n, d) * d <= 0,
        magnitude(trunc_div(n, d)) == magnitude(n) / d,
{
    let m = magnitude(n);
    assert(m == d * (m / d) + m % d && 0 <= m % d < d) by {
        vstd::arithmetic::div_mod::lemma_fundamental_div_mod(m, d);
    }
    assert(0 <= m / d) by (nonlinear_arith)
        requires
            m >= 0,
            d > 0,
    ;
    assert((m / d + 1) * d == (m / d) * d + d && (m / d) * d == d * (m / d)
        && (-(m / d) - 1) * d == -((m / d) * d) - d && (-(m / d)) * d == -((m / d) * d))
        by (nonlinear_arith);
}

/// A quotient is no larger in magnitude than its numerator.
pub proof fn lemma_trunc_div_shrinks(n: int, d: int)
    requires
        d > 0,
    ensures
        magnitude(trunc_div(n, d)) <= magnitude(n),
        n >= 0 ==> trunc_div(n, d) >= 0,
        n <= 0 ==> trunc_div(n, d) <= 0,
{
    lemma_trunc_div_bounds(n, d);
    let q = magnitude(n) / d;
    assert(q <= q * d) by (nonlinear_arith)
        requires
            q >= 0,
            d >= 1,
    ;
}

/// Rounding toward zero is symmetric: negating the numerator negates the
/// quotient.
pub proof fn lemma_trunc_div_mirror(n: int, d: int)
    requires
        d > 0,
    ensures
        trunc_div(-n, d) == -trunc_div(n, d),
{
    if n > 0 {
        assert(-(-n) == n);
    } else if n == 0 {
        vstd::arithmetic::div_mod::lemma_basic_div(0, d);
    }
}

/// Multiplying by a factor of magnitude at most 1 does not enlarge a number,
/// and the sign of a product follows the signs of its factors.
pub proof fn lemma_product_bounds(a: int, b: int)
    ensures
        magnitude(b) <= ONE ==> magnitude(fixed_product(a, b)) <= magnitude(a),
        fixed_product(a, b) == fixed_product(b, a),
        fixed_product(-a, b) == -fixed_product(a, b),
        (a >= 0 && b >= 0) || (a <= 0 && b <= 0) ==> fixed_product(a, b) >= 0,
        (a >= 0 && b <= 0) || (a <= 0 && b >= 0) ==> fixed_product(a, b) <= 0,
        a == 0 || b == 0 ==> fixed_product(a, b) == 0,
        b == ONE ==> fixed_product(a, b) == a,
{
    let one = ONE as int;
    lemma_trunc_div_bounds(a * b, one);
    assert(a * b == b * a && (-a) * b == -(a * b)) by (nonlinear_arith);
    assert((a >= 0 && b >= 0) || (a <= 0 && b <= 0) ==> a * b >= 0) by (nonlinear_arith);
    assert((a >= 0 && b <= 0) || (a <= 0 && b >= 0) ==> a * b <= 0) by (nonlinear_arith);
    assert(a == 0 || b == 0 ==> a * b == 0) by (nonlinear_arith);
    if magnitude(b) <= ONE {
        assert(magnitude(a * b) <= magnitude(a) * one) by (nonlinear_arith)
            requires
                magnitude(b) <= one,
                one > 0,
        ;
        vstd::arithmetic::div_mod::lemma_div_is_ordered(
            magnitude(a * b),
            magnitude(a) * one,
            one,
        );
        vstd::arithmetic::div_mod::lemma_div_multiples_vanish(magnitude(a), one);
    }
    if b == ONE {
        assert(a * b == a * one);
        vstd::arithmetic::div_mod::lemma_div_multiples_vanish(magnitude(a), one);
        assert(magnitude(a * one) == magnitude(a) * one) by (nonlinear_arith)
            requires
                one > 0,
        ;
    }
}

/// A quotient of numbers that are not negative is at most 1 when the
/// numerator does not exceed the denominator, and at most the numerator when
/// the denominator is at least 1.
pub proof fn lemma_quotient_bounds(a: int, b: int)
    requires
        0 <= a,
        0 < b,
    ensures
        0 <= fixed_quotient(a, b),
        a <= b ==> fixed_quotient(a, b) <= ONE,
        b >= ONE ==> fixed_quotient(a, b) <= a,
        b == ONE ==> fixed_quotient(a, b) == a,
        a == 0 ==> fixed_quotient(a, b) == 0,
{
    let one = ONE as int;
    assert(0 <= a * one) by (nonlinear_arith)
        requires
            0 <= a,
            0 < one,
    ;
    vstd::arithmetic::div_mod::lemma_div_pos_is_pos(a * one, b);
    if a <= b {
        assert(a * one <= b * one) by (nonlinear_arith)
            requires
                a <= b,
                0 < one,
        ;
        vstd::arithmetic::div_mod::lemma_div_is_ordered(a * one, b * one, b);
        vstd::arithmetic::div_mod::lemma_div_multiples_vanish(one, b);
    }
    if b >= ONE {
        vstd::arithmetic::div_mod::lemma_div_is_ordered_by_denominator(a * one, one, b);
        vstd::arithmetic::div_mod::lemma_div_multiples_vanish(a, one);
        assert(a * one == one * a) by (nonlinear_arith);
    }
    if a == 0 {
        assert(a * one == 0) by (nonlinear_arith)
            requires
                a == 0,
        ;
    }
}

/// A quotient by a divisor of at least 1/100 is at most a hundred times the
/// numerator in magnitude, and has the numerator's sign.
pub proof fn lemma_quotient_growth(a: int, b: int)
    requires
        b >= ONE / 100,
    ensures
        magnitude(fixed_quotient(a, b)) <= 100 * magnitude(a),
        a >= 0 ==> fixed_quotient(a, b) >= 0,
        a <= 0 ==> fixed_quotient(a, b) <= 0,
{
    let one = ONE as int;
    let m = magnitude(a);
    lemma_trunc_div_bounds(a * one, b);
    lemma_trunc_div_shrinks(a * one, b);
    assert(magnitude(a * one) == m * one && m * one == (one / 100) * (100 * m) && 0 <= m * one
        && (a >= 0 ==> a * one >= 0) && (a <= 0 ==> a * one <= 0)) by (nonlinear_arith)
        requires
            m == magnitude(a),
            one == 1_000_000_000_000_000,
    ;
    vstd::arithmetic::div_mod::lemma_div_is_ordered_by_denominator(m * one, one / 100, b);
    vstd::arithmetic::div_mod::lemma_div_multiples_vanish(100 * m, one / 100);
}

/// A number has one integer square root.
pub proof fn lemma_floor_root_unique(n: int, r1: int, r2: int)
    requires
        is_floor_root(n, r1),
        is_floor_root(n, r2),
    ensures
        r1 == r2,
{
    if r1 < r2 {
        assert((r1 + 1) * (r1 + 1) <= r2 * r2) by (nonlinear_arith)
            requires
                0 <= r1 + 1 <= r2,
        ;
    } else if r2 < r1 {
        assert((r2 + 1) * (r2 + 1) <= r1 * r1) by (nonlinear_arith)
            requires
                0 <= r2 + 1 <= r1,
        ;
    }
}

/// The square root of a number between 0 and 1 lies between 0 and 1, and
/// that of 1 is 1.
pub proof fn lemma_fixed_root_unit(v: int, r: int)
    requires
        0 <= v <= ONE,
        is_floor_root(v * ONE, r),
    ensures
        r == fixed_root(v),
        0 <= r <= ONE,
        v == ONE ==> r == ONE,
{
    lemma_floor_root_unique(v * ONE, r, fixed_root(v));
    let one = ONE as int;
    assert(v * one <= one * one) by (nonlinear_arith)
        requires
            0 <= v <= one,
    ;
    if r > one {
        assert(r * r >= (one + 1) * (one + 1)) by (nonlinear_arith)
            requires
                r >= one + 1,
                one > 0,
        ;
    }
    if v == ONE {
        assert(is_floor_root(v * ONE, one)) by (nonlinear_arith)
            requires
                v == one,
                one == 1_000_000_000_000_000,
        ;
        lemma_floor_root_unique(v * ONE, r, one);
    }
}

/// The product of two `i64` values fits in an `i128`.
pub proof fn lemma_wide_product_fits(a: i64, b: i64)
    ensures
        i128::MIN < a * b < i128::MAX,
{
    assert(-0x4000_0000_0000_0000_0000_0000_0000_0000 <= a * b
        <= 0x4000_0000_0000_0000_0000_0000_0000_0000) by (nonlinear_arith)
        requires
            -0x8000_0000_0000_0000 <= a <= 0x8000_0000_0000_0000,
            -0x8000_0000_0000_0000 <= b <= 0x8000_0000_0000_0000,
    ;
}

/// The fixed-point product of `a` and `b`.
pub fn mul_fixed(a: Fixed, b: Fixed) -> (r: Fixed)
    requires
        i64::MIN <= fixed_product(a as int, b as int) <= i64::MAX,
    ensures
        r == fixed_product(a as int, b as int),
{
    proof {
        lemma_wide_product_fits(a, b);
    }
    let wide: i128 = (a as i128) * (b as i128);
    let q: i128 = wide / (ONE as i128);
    q as i64
}

/// The fixed-point quotient of `a` by a positive `b`.
pub fn div_fixed(a: Fixed, b: Fixed) -> (r: Fixed)
    requires
        b > 0,
        i64::MIN <= fixed_quotient(a as int, b as int) <= i64::MAX,
    ensures
        r == fixed_quotient(a as int, b as int),
{
    proof {
        lemma_wide_product_fits(a, ONE);
    }
    let wide: i128 = (a as i128) * (ONE as i128);
    let q: i128 = wide / (b as i128);
    q as i64
}

/// The fixed-point square root of a number that is not negative: the integer
/// square root of `v * 10^15`.
pub fn sqrt_fixed(v: Fixed) -> (r: Fixed)
    requires
        v >= 0,
    ensures
        is_floor_root(v * ONE, r as int),
        r == fixed_root(v as int),
{
    proof {
        lemma_wide_product_fits(v, ONE);
    }
    let n: i128 = (v as i128) * (ONE as i128);
    let mut lo: i128 = 0;
    let mut hi: i128 = 100_000_000_000_000_000;
    proof {
        assert(n < hi * hi) by (nonlinear_arith)
            requires
                n == v * 1_000_000_000_000_000,
                v < 0x8000_0000_0000_0000,
                hi == 100_000_000_000_000_000,
        ;
    }
    while hi - lo > 1
        invariant
            0 <= lo < hi <= 100_000_000_000_000_000,
            lo * lo <= n < hi * hi,
            n == v * ONE,
        decreases hi - lo,
    {
        let mid: i128 = lo + (hi - lo) / 2;
        proof {
            assert(0 <= mid * mid <= 100_000_000_000_000_000 * 100_000_000_000_000_000)
                by (nonlinear_arith)
                requires
                    0 <= mid <= 100_000_000_000_000_000,
            ;
        }
        if mid * mid <= n {
            lo = mid;
        } else {
            hi = mid;
        }
    }
    proof {
        lemma_floor_root_unique(v * ONE, lo as int, fixed_root(v as int));
    }
    lo as i64
}

} // verus!
