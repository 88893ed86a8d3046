//! Orbital kinematics: from the phase of the orbit to where the Moon is.
//!
//! The phase gives the mean anomaly; Kepler's equation `E - e sin E = M` is
//! solved for the eccentric anomaly `E` by Newton's method; the true anomaly
//! and the focus-centred conic law `r = p / (1 + e cos φ)` give the Moon's
//! distance, and a projection its position in the plane.

use crate::fixed::{
    div_fixed, fixed_product, fixed_quotient, fixed_root, lemma_fixed_root_unit,
    lemma_product_bounds, lemma_quotient_bounds, lemma_quotient_growth, lemma_trunc_div_bounds,
    lemma_trunc_div_mirror,
    magnitude, mul_fixed, sqrt_fixed, Fixed, ONE, PI, TWO_PI,
};
use crate::trig::{
    arctangent2, atan2, cosine, lemma_sine_cosine_bounds, lemma_sine_odd_cosine_even, sin_cos,
    sine,
};
use vstd::prelude::*;

verus! {

/// The largest eccentricity: 0.99. At 1 the orbit would no longer be an
/// ellipse.
pub const MAX_ECCENTRICITY: i64 = 990_000_000_000_000;

/// The semi-latus rectum of the Moon's orbit, in world units: 40.
pub const MOON_ORBIT_RADIUS: i64 = 40_000_000_000_000_000;

/// The largest semi-latus rectum whose orbit fits the number format at every
/// eccentricity.
pub const MAX_SEMI_LATUS_RECTUM: i64 = 92_233_720_368_547_758;

/// Newton's method stops once a correction is at most this: `10^-10`.
pub const TOLERANCE: i64 = 100_000;

/// Newton's method gives up after this many corrections.
pub const MAX_ITERATIONS: u32 = 50;

/// The mean anomaly at `phase`, a fraction of the period between 0 and 1:
/// `phase * 2π`, less a full turn where that exceeds π.
pub open spec fn mean_anomaly_of(phase: int) -> int {
    let turned = fixed_product(phase, TWO_PI as int);
    if turned > PI {
        turned - TWO_PI
    } else {
        turned
    }
}

/// The left side of Kepler's equation less the right: `E - e sin E - M`.
pub open spec fn kepler_residual(eccentric: int, mean: int, eccentricity: int) -> int {
    eccentric - fixed_product(eccentricity, sine(eccentric)) - mean
}

/// The derivative of the residual by `E`: `1 - e cos E`.
pub open spec fn kepler_slope(eccentric: int, eccentricity: int) -> int {
    ONE - fixed_product(eccentricity, cosine(eccentric))
}

/// Newton's correction at `E`: the residual over its slope.
pub open spec fn newton_correction(eccentric: int, mean: int, eccentricity: int) -> int {
    fixed_quotient(
        kepler_residual(eccentric, mean, eccentricity),
        kepler_slope(eccentric, eccentricity),
    )
}

/// Whether Newton's method stops at `E`: the correction is within the
/// tolerance.
pub open spec fn within_tolerance(eccentric: int, mean: int, eccentricity: int) -> bool {
    magnitude(newton_correction(eccentric, mean, eccentricity)) <= TOLERANCE
}

/// `angle`, held to the half turn around zero in which every root of
/// Kepler's equation for a mean anomaly between -π and π lies.
pub open spec fn clamp_half_turn(angle: int) -> int {
    if angle < -PI {
        -PI as int
    } else if angle > PI {
        PI as int
    } else {
        angle
    }
}

/// The next iterate of Newton's method after `E`.
pub open spec fn newton_step(eccentric: int, mean: int, eccentricity: int) -> int {
    clamp_half_turn(eccentric - newton_correction(eccentric, mean, eccentricity))
}

/// Where Newton's method ends when it starts at `eccentric` and may make
/// `budget` corrections.
pub open spec fn newton_root(eccentric: int, mean: int, eccentricity: int, budget: nat) -> int
    decreases budget,
{
    if within_tolerance(eccentric, mean, eccentricity) || budget == 0 {
        eccentric
    } else {
        newton_root(
            newton_step(eccentric, mean, eccentricity),
            mean,
            eccentricity,
            (budget - 1) as nat,
        )
    }
}

/// How many corrections Newton's method makes from `eccentric` with a budget
/// of `budget`.
pub open spec fn newton_iterations(
    eccentric: int,
    mean: int,
    eccentricity: int,
    budget: nat,
) -> nat
    decreases budget,
{
    if within_tolerance(eccentric, mean, eccentricity) || budget == 0 {
        0
    } else {
        1 + newton_iterations(
            newton_step(eccentric, mean, eccentricity),
            mean,
            eccentricity,
            (budget - 1) as nat,
        )
    }
}

/// An eccentric anomaly found by Newton's method.
#[derive(Clone, Copy, Debug)]
pub struct KeplerSolution {
    /// The last iterate.
    pub eccentric_anomaly: Fixed,
    /// How many corrections were made.
    pub iterations: u32,
    /// Whether the last correction was within the tolerance. It is not when
    /// the budget of corrections ran out first.
    pub converged: bool,
}

/// The slope of Kepler's equation is at least `1 - e` and at most `1 + e`,
/// and the residual is bounded, for an eccentricity up to 0.99 and angles
/// within half a turn.
pub proof fn lemma_kepler_bounds(eccentric: int, mean: int, eccentricity: int)
    requires
        0 <= eccentricity <= MAX_ECCENTRICITY,
    ensures
        ONE - eccentricity <= kepler_slope(eccentric, eccentricity) <= ONE + eccentricity,
        magnitude(kepler_residual(eccentric, mean, eccentricity)) <= magnitude(eccentric)
            + magnitude(mean) + eccentricity,
        magnitude(newton_correction(eccentric, mean, eccentricity)) <= 100 * (magnitude(eccentric)
            + magnitude(mean) + eccentricity),
        eccentricity == 0 ==> kepler_residual(eccentric, mean, eccentricity) == eccentric - mean,
        eccentricity == 0 ==> kepler_slope(eccentric, eccentricity) == ONE,
        eccentricity == 0 ==> newton_correction(eccentric, mean, eccentricity) == eccentric - mean,
{
    lemma_sine_cosine_bounds(eccentric);
    lemma_product_bounds(eccentricity, sine(eccentric));
    lemma_product_bounds(eccentricity, cosine(eccentric));
    let residual = kepler_residual(eccentric, mean, eccentricity);
    let slope = kepler_slope(eccentric, eccentricity);
    lemma_quotient_growth(residual, slope);
    if eccentricity == 0 {
        lemma_trunc_div_bounds(residual * ONE, ONE as int);
        assert(magnitude(residual * ONE) == magnitude(residual) * ONE) by (nonlinear_arith);
        vstd::arithmetic::div_mod::lemma_div_multiples_vanish(magnitude(residual), ONE as int);
    }
}

/// Round trip: where Newton's method stops, putting the eccentric anomaly
/// back into Kepler's equation gives the mean anomaly again, up to the
/// tolerance times the slope. The slope is below 2, so the two differ by
/// less than twice the tolerance; where the slope is at most 1 (the cosine of
/// the eccentric anomaly is not negative), by at most the tolerance itself.
pub proof fn lemma_round_trip(eccentric: int, mean: int, eccentricity: int)
    requires
        0 <= eccentricity <= MAX_ECCENTRICITY,
        within_tolerance(eccentric, mean, eccentricity),
    ensures
        magnitude(kepler_residual(eccentric, mean, eccentricity)) * ONE < (TOLERANCE + 1)
            * kepler_slope(eccentric, eccentricity),
        magnitude(kepler_residual(eccentric, mean, eccentricity)) < 2 * (TOLERANCE + 1),
        kepler_slope(eccentric, eccentricity) <= ONE ==> magnitude(
            kepler_residual(eccentric, mean, eccentricity),
        ) <= TOLERANCE,
{
    let residual = kepler_residual(eccentric, mean, eccentricity);
    let slope = kepler_slope(eccentric, eccentricity);
    let correction = newton_correction(eccentric, mean, eccentricity);
    let one = ONE as int;
    let tol = TOLERANCE as int;
    lemma_kepler_bounds(eccentric, mean, eccentricity);
    lemma_trunc_div_bounds(residual * one, slope);
    let m = magnitude(residual);
    let c = magnitude(correction);
    assert(magnitude(residual * one) == m * one) by (nonlinear_arith)
        requires
            m == magnitude(residual),
            one > 0,
    ;
    assert(c == (m * one) / slope);
    vstd::arithmetic::div_mod::lemma_fundamental_div_mod(m * one, slope);
    assert(m * one < (tol + 1) * slope) by (nonlinear_arith)
        requires
            m * one == slope * c + (m * one) % slope,
            0 <= (m * one) % slope < slope,
            0 <= c <= tol,
    ;
    assert(m < 2 * (tol + 1)) by (nonlinear_arith)
        requires
            m * one < (tol + 1) * slope,
            0 < slope < 2 * one,
            one > 0,
            tol >= 0,
    ;
    if slope <= one {
        assert(m <= tol) by (nonlinear_arith)
            requires
                m * one < (tol + 1) * slope,
                0 < slope <= one,
                tol >= 0,
        ;
    }
}

/// Newton's correction is odd: at the negated angle, for the negated mean
/// anomaly, it is the negated correction.
pub proof fn lemma_correction_mirror(eccentric: int, mean: int, eccentricity: int)
    requires
        0 <= eccentricity <= MAX_ECCENTRICITY,
    ensures
        newton_correction(-eccentric, -mean, eccentricity) == -newton_correction(
            eccentric,
            mean,
            eccentricity,
        ),
        within_tolerance(-eccentric, -mean, eccentricity) == within_tolerance(
            eccentric,
            mean,
            eccentricity,
        ),
        newton_step(-eccentric, -mean, eccentricity) == -newton_step(
            eccentric,
            mean,
            eccentricity,
        ),
{
    lemma_sine_odd_cosine_even(eccentric);
    lemma_product_bounds(sine(eccentric), eccentricity);
    lemma_product_bounds(-sine(eccentric), eccentricity);
    lemma_product_bounds(eccentricity, sine(eccentric));
    lemma_product_bounds(eccentricity, -sine(eccentric));
    let residual = kepler_residual(eccentric, mean, eccentricity);
    let slope = kepler_slope(eccentric, eccentricity);
    assert(kepler_residual(-eccentric, -mean, eccentricity) == -residual);
    assert(kepler_slope(-eccentric, eccentricity) == slope);
    lemma_kepler_bounds(eccentric, mean, eccentricity);
    lemma_trunc_div_mirror(residual * ONE, slope);
}

/// Kepler's equation is odd: negating the mean anomaly and the starting
/// point negates every iterate of Newton's method, and so its result, in the
/// same number of corrections.
pub proof fn lemma_kepler_mirror(eccentric: int, mean: int, eccentricity: int, budget: nat)
    requires
        0 <= eccentricity <= MAX_ECCENTRICITY,
    ensures
        newton_root(-eccentric, -mean, eccentricity, budget) == -newton_root(
            eccentric,
            mean,
            eccentricity,
            budget,
        ),
        newton_iterations(-eccentric, -mean, eccentricity, budget) == newton_iterations(
            eccentric,
            mean,
            eccentricity,
            budget,
        ),
    decreases budget,
{
    lemma_correction_mirror(eccentric, mean, eccentricity);
    if !within_tolerance(eccentric, mean, eccentricity) && budget > 0 {
        lemma_kepler_mirror(
            newton_step(eccentric, mean, eccentricity),
            mean,
            eccentricity,
            (budget - 1) as nat,
        );
    }
}

/// The mean anomaly at `phase`.
pub fn mean_anomaly(phase: Fixed) -> (r: Fixed)
    requires
        0 <= phase <= ONE,
    ensures
        r == mean_anomaly_of(phase as int),
        -PI < r <= PI,
{
    proof {
        lemma_product_bounds(TWO_PI as int, phase as int);
    }
    let turned: i64 = mul_fixed(phase, TWO_PI);
    if turned > PI {
        turned - TWO_PI
    } else {
        turned
    }
}

/// Newton's correction at `eccentric`.
fn correction_at(eccentric: Fixed, mean: Fixed, eccentricity: Fixed) -> (r: Fixed)
    requires
        -PI <= eccentric <= PI,
        -PI <= mean <= PI,
        0 <= eccentricity <= MAX_ECCENTRICITY,
    ensures
        r == newton_correction(eccentric as int, mean as int, eccentricity as int),
{
    proof {
        lemma_sine_cosine_bounds(eccentric as int);
        lemma_product_bounds(eccentricity as int, sine(eccentric as int));
        lemma_product_bounds(eccentricity as int, cosine(eccentric as int));
        lemma_kepler_bounds(eccentric as int, mean as int, eccentricity as int);
    }
    let (s, c) = sin_cos(eccentric);
    let residual: i64 = eccentric - mul_fixed(eccentricity, s) - mean;
    let slope: i64 = ONE - mul_fixed(eccentricity, c);
    div_fixed(residual, slope)
}

/// Solves Kepler's equation `E - e sin E = M` for the eccentric anomaly `E`.
///
/// Newton's method starts at `E = M` and corrects `E` by the residual over
/// its slope until a correction is within the tolerance. Every iterate is
/// held to the half turn around zero in which the root lies, and the number
/// of corrections is capped.
pub fn solve_kepler(mean: Fixed, eccentricity: Fixed) -> (r: KeplerSolution)
    requires
        -PI <= mean <= PI,
        0 <= eccentricity <= MAX_ECCENTRICITY,
    ensures
        r.eccentric_anomaly == newton_root(
            mean as int,
            mean as int,
            eccentricity as int,
            MAX_ITERATIONS as nat,
        ),
        r.iterations == newton_iterations(
            mean as int,
            mean as int,
            eccentricity as int,
            MAX_ITERATIONS as nat,
        ),
        r.converged == within_tolerance(
            r.eccentric_anomaly as int,
            mean as int,
            eccentricity as int,
        ),
        r.converged ==> magnitude(
            kepler_residual(r.eccentric_anomaly as int, mean as int, eccentricity as int),
        ) * ONE < (TOLERANCE + 1) * kepler_slope(r.eccentric_anomaly as int, eccentricity as int),
        r.converged ==> magnitude(
            kepler_residual(r.eccentric_anomaly as int, mean as int, eccentricity as int),
        ) < 2 * (TOLERANCE + 1),
        -PI <= r.eccentric_anomaly <= PI,
        r.iterations <= MAX_ITERATIONS,
        !r.converged ==> r.iterations == MAX_ITERATIONS,
        eccentricity == 0 ==> r.converged && r.iterations == 0 && r.eccentric_anomaly == mean,
{
    let mut eccentric: i64 = mean;
    let mut iterations: u32 = 0;
    proof {
        lemma_kepler_bounds(mean as int, mean as int, eccentricity as int);
    }
    loop
        invariant
            -PI <= eccentric <= PI,
            -PI <= mean <= PI,
            0 <= eccentricity <= MAX_ECCENTRICITY,
            iterations <= MAX_ITERATIONS,
            newton_root(mean as int, mean as int, eccentricity as int, MAX_ITERATIONS as nat)
                == newton_root(
                eccentric as int,
                mean as int,
                eccentricity as int,
                (MAX_ITERATIONS - iterations) as nat,
            ),
            newton_iterations(mean as int, mean as int, eccentricity as int, MAX_ITERATIONS as nat)
                == iterations + newton_iterations(
                eccentric as int,
                mean as int,
                eccentricity as int,
                (MAX_ITERATIONS - iterations) as nat,
            ),
            eccentricity == 0 ==> iterations == 0 && eccentric == mean,
        decreases MAX_ITERATIONS - iterations,
    {
        proof {
            lemma_kepler_bounds(eccentric as int, mean as int, eccentricity as int);
        }
        let correction: i64 = correction_at(eccentric, mean, eccentricity);
        let converged: bool = -TOLERANCE <= correction && correction <= TOLERANCE;
        if converged || iterations >= MAX_ITERATIONS {
            proof {
                if converged {
                    lemma_round_trip(eccentric as int, mean as int, eccentricity as int);
                }
            }
            return KeplerSolution { eccentric_anomaly: eccentric, iterations, converged };
        }
        let next: i64 = eccentric - correction;
        eccentric = if next < -PI {
            -PI
        } else if next > PI {
            PI
        } else {
            next
        };
        iterations = iterations + 1;
    }
}

/// The true anomaly at the eccentric anomaly `E`:
/// `atan2(sqrt(1 - e^2) sin E, cos E - e)`.
pub open spec fn true_anomaly_of(eccentric: int, eccentricity: int) -> int {
    arctangent2(
        fixed_product(
            fixed_root(ONE - fixed_product(eccentricity, eccentricity)),
            sine(eccentric),
        ),
        cosine(eccentric) - eccentricity,
    )
}

/// The focus-centred conic law: the distance from the focus at the angle
/// `phi` from periapsis, `p / (1 + e cos φ)`.
pub open spec fn conic_radius(semi_latus_rectum: int, eccentricity: int, phi: int) -> int {
    fixed_quotient(semi_latus_rectum, ONE + fixed_product(eccentricity, cosine(phi)))
}

/// The point at distance `radius` and angle `phi`, with periapsis on the
/// negative x axis: `(-r cos φ, r sin φ)`.
pub open spec fn cartesian(radius: int, phi: int) -> (int, int) {
    (-fixed_product(radius, cosine(phi)), fixed_product(radius, sine(phi)))
}

/// The conic law gives a distance between half the semi-latus rectum and a
/// hundred times it: the denominator `1 + e cos φ` stays between 0.01 and
/// 1.99 for every angle. So the distance is positive, and it is bounded. On
/// a circle it is the semi-latus rectum itself.
pub proof fn lemma_conic_radius_bounds(semi_latus_rectum: int, eccentricity: int, phi: int)
    requires
        0 <= semi_latus_rectum,
        0 <= eccentricity <= MAX_ECCENTRICITY,
    ensures
        semi_latus_rectum / 2 <= conic_radius(semi_latus_rectum, eccentricity, phi) <= 100
            * semi_latus_rectum,
        semi_latus_rectum >= 2 ==> conic_radius(semi_latus_rectum, eccentricity, phi) > 0,
        eccentricity == 0 ==> conic_radius(semi_latus_rectum, eccentricity, phi)
            == semi_latus_rectum,
{
    let one = ONE as int;
    let p = semi_latus_rectum;
    lemma_sine_cosine_bounds(phi);
    lemma_product_bounds(eccentricity, cosine(phi));
    let denominator = ONE + fixed_product(eccentricity, cosine(phi));
    lemma_quotient_growth(p, denominator);
    lemma_quotient_bounds(p, denominator);
    assert(0 <= p * one && p * one == one * p) by (nonlinear_arith)
        requires
            0 <= p,
            0 < one,
    ;
    vstd::arithmetic::div_mod::lemma_div_is_ordered_by_denominator(p * one, denominator, 2 * one);
    vstd::arithmetic::div_mod::lemma_div_denominator(p * one, one, 2);
    vstd::arithmetic::div_mod::lemma_div_multiples_vanish(p, one);
    assert(one * 2 == 2 * one);
}

/// The true anomaly at the eccentric anomaly `eccentric`.
pub fn true_anomaly(eccentric: Fixed, eccentricity: Fixed) -> (r: Fixed)
    requires
        0 <= eccentricity <= MAX_ECCENTRICITY,
    ensures
        r == true_anomaly_of(eccentric as int, eccentricity as int),
        -PI <= r <= PI,
{
    proof {
        lemma_product_bounds(eccentricity as int, eccentricity as int);
    }
    let squared: i64 = mul_fixed(eccentricity, eccentricity);
    let axis_ratio: i64 = sqrt_fixed(ONE - squared);
    let (s, c) = sin_cos(eccentric);
    proof {
        lemma_fixed_root_unit(ONE - squared, axis_ratio as int);
        lemma_product_bounds(s as int, axis_ratio as int);
    }
    atan2(mul_fixed(axis_ratio, s), c - eccentricity)
}

/// The distance from the focus at the angle `phi` from periapsis, for an
/// orbit of semi-latus rectum `semi_latus_rectum`.
pub fn orbital_radius(semi_latus_rectum: Fixed, eccentricity: Fixed, phi: Fixed) -> (r: Fixed)
    requires
        0 < semi_latus_rectum <= MAX_SEMI_LATUS_RECTUM,
        0 <= eccentricity <= MAX_ECCENTRICITY,
    ensures
        r == conic_radius(semi_latus_rectum as int, eccentricity as int, phi as int),
        semi_latus_rectum / 2 <= r <= 100 * semi_latus_rectum,
        semi_latus_rectum >= 2 ==> r > 0,
        eccentricity == 0 ==> r == semi_latus_rectum,
{
    proof {
        lemma_sine_cosine_bounds(phi as int);
        lemma_product_bounds(eccentricity as int, cosine(phi as int));
        lemma_conic_radius_bounds(semi_latus_rectum as int, eccentricity as int, phi as int);
    }
    let (_s, c) = sin_cos(phi);
    div_fixed(semi_latus_rectum, ONE + mul_fixed(eccentricity, c))
}

/// The point at distance `radius` and angle `phi`.
pub fn to_cartesian(radius: Fixed, phi: Fixed) -> (r: (Fixed, Fixed))
    requires
        radius > i64::MIN,
    ensures
        (r.0 as int, r.1 as int) == cartesian(radius as int, phi as int),
        magnitude(r.0 as int) <= magnitude(radius as int),
        magnitude(r.1 as int) <= magnitude(radius as int),
{
    proof {
        lemma_sine_cosine_bounds(phi as int);
        lemma_product_bounds(radius as int, cosine(phi as int));
        lemma_product_bounds(radius as int, sine(phi as int));
    }
    let (s, c) = sin_cos(phi);
    (-mul_fixed(radius, c), mul_fixed(radius, s))
}

/// Where the Moon is, and the angles that lead there.
#[derive(Clone, Copy, Debug)]
pub struct OrbitState {
    /// The mean anomaly, between -π (excluded) and π.
    pub mean_anomaly: Fixed,
    /// The eccentric anomaly: the root of Kepler's equation.
    pub eccentric_anomaly: Fixed,
    /// The angle of the Moon from periapsis, as seen from Earth.
    pub true_anomaly: Fixed,
    /// The distance of the Moon from Earth.
    pub orbital_radius: Fixed,
    /// The Moon's position in the plane, Earth at the origin.
    pub position: (Fixed, Fixed),
    /// Whether Newton's method reached its tolerance.
    pub converged: bool,
}

/// The eccentric anomaly at `phase`: where Newton's method ends from the mean
/// anomaly.
pub open spec fn eccentric_anomaly_of(phase: int, eccentricity: int) -> int {
    newton_root(
        mean_anomaly_of(phase),
        mean_anomaly_of(phase),
        eccentricity,
        MAX_ITERATIONS as nat,
    )
}

/// The Moon's true anomaly at `phase`.
pub open spec fn moon_anomaly(phase: int, eccentricity: int) -> int {
    true_anomaly_of(eccentric_anomaly_of(phase, eccentricity), eccentricity)
}

/// The Moon's distance from Earth at `phase`.
pub open spec fn moon_radius(phase: int, eccentricity: int) -> int {
    conic_radius(MOON_ORBIT_RADIUS as int, eccentricity, moon_anomaly(phase, eccentricity))
}

/// The Moon's position at `phase`.
pub open spec fn moon_position(phase: int, eccentricity: int) -> (int, int) {
    cartesian(moon_radius(phase, eccentricity), moon_anomaly(phase, eccentricity))
}

/// On a circular orbit the eccentric anomaly is the mean anomaly, the true
/// anomaly is the angle of the point `(cos M, sin M)`, and the Moon keeps
/// the distance of the semi-latus rectum.
pub proof fn lemma_circular_orbit(phase: int)
    requires
        0 <= phase <= ONE,
    ensures
        eccentric_anomaly_of(phase, 0) == mean_anomaly_of(phase),
        moon_anomaly(phase, 0) == arctangent2(
            sine(mean_anomaly_of(phase)),
            cosine(mean_anomaly_of(phase)),
        ),
        moon_radius(phase, 0) == MOON_ORBIT_RADIUS,
{
    let mean = mean_anomaly_of(phase);
    lemma_kepler_bounds(mean, mean, 0);
    lemma_product_bounds(0, 0);
    assert(crate::fixed::is_floor_root(ONE * ONE, ONE as int)) by (nonlinear_arith);
    lemma_fixed_root_unit(ONE as int, ONE as int);
    lemma_product_bounds(sine(mean), ONE as int);
    lemma_conic_radius_bounds(MOON_ORBIT_RADIUS as int, 0, moon_anomaly(phase, 0));
}

/// The Moon is never further from Earth than a hundred times the
/// semi-latus rectum, nor nearer than half of it.
pub proof fn lemma_moon_position_bounds(phase: int, eccentricity: int)
    requires
        0 <= eccentricity <= MAX_ECCENTRICITY,
    ensures
        MOON_ORBIT_RADIUS / 2 <= moon_radius(phase, eccentricity) <= 100 * MOON_ORBIT_RADIUS,
        magnitude(moon_position(phase, eccentricity).0) <= moon_radius(phase, eccentricity),
        magnitude(moon_position(phase, eccentricity).1) <= moon_radius(phase, eccentricity),
{
    let anomaly = moon_anomaly(phase, eccentricity);
    let radius = moon_radius(phase, eccentricity);
    lemma_conic_radius_bounds(MOON_ORBIT_RADIUS as int, eccentricity, anomaly);
    lemma_sine_cosine_bounds(anomaly);
    lemma_product_bounds(radius, cosine(anomaly));
    lemma_product_bounds(radius, sine(anomaly));
}

/// Solves for the Moon's position at `phase`, a fraction of the period
/// between 0 and 1, on an orbit of the given eccentricity.
pub fn solve_moon_position(phase: Fixed, eccentricity: Fixed) -> (r: OrbitState)
    requires
        0 <= phase <= ONE,
        0 <= eccentricity <= MAX_ECCENTRICITY,
    ensures
        r.mean_anomaly == mean_anomaly_of(phase as int),
        r.eccentric_anomaly == eccentric_anomaly_of(phase as int, eccentricity as int),
        r.true_anomaly == moon_anomaly(phase as int, eccentricity as int),
        r.orbital_radius == moon_radius(phase as int, eccentricity as int),
        (r.position.0 as int, r.position.1 as int) == moon_position(
            phase as int,
            eccentricity as int,
        ),
        r.converged == within_tolerance(
            r.eccentric_anomaly as int,
            r.mean_anomaly as int,
            eccentricity as int,
        ),
        r.converged ==> magnitude(
            kepler_residual(
                r.eccentric_anomaly as int,
                r.mean_anomaly as int,
                eccentricity as int,
            ),
        ) < 2 * (TOLERANCE + 1),
        -PI < r.mean_anomaly <= PI,
        -PI <= r.eccentric_anomaly <= PI,
        -PI <= r.true_anomaly <= PI,
        MOON_ORBIT_RADIUS / 2 <= r.orbital_radius <= 100 * MOON_ORBIT_RADIUS,
        magnitude(r.position.0 as int) <= r.orbital_radius,
        magnitude(r.position.1 as int) <= r.orbital_radius,
        eccentricity == 0 ==> r.converged && r.eccentric_anomaly == r.mean_anomaly
            && r.orbital_radius == MOON_ORBIT_RADIUS,
{
    let mean: i64 = mean_anomaly(phase);
    let solution: KeplerSolution = solve_kepler(mean, eccentricity);
    let anomaly: i64 = true_anomaly(solution.eccentric_anomaly, eccentricity);
    let radius: i64 = orbital_radius(MOON_ORBIT_RADIUS, eccentricity, anomaly);
    let position: (i64, i64) = to_cartesian(radius, anomaly);
    OrbitState {
        mean_anomaly: mean,
        eccentric_anomaly: solution.eccentric_anomaly,
        true_anomaly: anomaly,
        orbital_radius: radius,
        position,
        converged: solution.converged,
    }
}

/// The angle between two samples of the orbit's outline unless another is
/// asked for: 0.01 radians.
pub const DEFAULT_STEP: i64 = 10_000_000_000_000;

/// The largest angle between two samples: a full turn more still fits the
/// number format.
pub const MAX_STEP: i64 = 9_217_088_851_547_596_221;

/// A point of the plane, Earth at the origin.
pub type Point = (Fixed, Fixed);

/// A straight piece of the orbit's outline.
#[derive(Clone, Copy, Debug)]
pub struct Segment {
    /// Where the piece begins.
    pub start: Point,
    /// Where it ends, one step further along the orbit.
    pub end: Point,
}

/// The point of the orbit at the angle `phi` from periapsis.
pub open spec fn orbit_point(eccentricity: int, phi: int) -> (int, int) {
    cartesian(conic_radius(MOON_ORBIT_RADIUS as int, eccentricity, phi), phi)
}

/// How many samples a sweep from 0 in steps of `step` takes below a full
/// turn: one segment of the outline begins at each.
pub open spec fn segment_count(step: int) -> int {
    (TWO_PI + step - 1) / step
}

/// `segment` joins the samples `index` and `index + 1` of the sweep.
pub open spec fn is_orbit_segment(
    segment: Segment,
    eccentricity: int,
    step: int,
    index: int,
) -> bool {
    &&& (segment.start.0 as int, segment.start.1 as int) == orbit_point(
        eccentricity,
        index * step,
    )
    &&& (segment.end.0 as int, segment.end.1 as int) == orbit_point(
        eccentricity,
        (index + 1) * step,
    )
}

/// The sweep has a sample `index` exactly when the angle of that sample is
/// below a full turn.
pub proof fn lemma_segment_count(step: int, index: int)
    requires
        step > 0,
    ensures
        index < segment_count(step) <==> index * step < TWO_PI,
        segment_count(step) >= 1,
        segment_count(step) <= TWO_PI,
{
    let total = TWO_PI + step - 1;
    let count = segment_count(step);
    vstd::arithmetic::div_mod::lemma_fundamental_div_mod(total, step);
    assert(step * count == count * step) by (nonlinear_arith);
    if index < count {
        assert(index * step <= (count - 1) * step) by (nonlinear_arith)
            requires
                index <= count - 1,
                step > 0,
        ;
        assert((count - 1) * step == count * step - step) by (nonlinear_arith);
    } else {
        assert(index * step >= count * step) by (nonlinear_arith)
            requires
                index >= count,
                step > 0,
        ;
    }
    assert(0 * step == 0) by (nonlinear_arith);
    assert(count <= TWO_PI) by (nonlinear_arith)
        requires
            count * step <= TWO_PI + step - 1,
            step >= 1,
            count >= 1,
    ;
}

/// The outline is connected and closed: each segment begins where the one
/// before it ends, and the last one ends at or beyond the full turn.
pub proof fn lemma_outline_connected(
    first: Segment,
    second: Segment,
    eccentricity: int,
    step: int,
    index: int,
)
    requires
        step > 0,
        is_orbit_segment(first, eccentricity, step, index),
        is_orbit_segment(second, eccentricity, step, index + 1),
    ensures
        first.end == second.start,
        segment_count(step) * step >= TWO_PI,
{
    lemma_segment_count(step, segment_count(step));
}

/// The orbit is symmetric about the line through periapsis and apoapsis:
/// the point at the angle `-phi` is the point at `phi` mirrored at the x
/// axis.
pub proof fn lemma_orbit_mirror(eccentricity: int, phi: int)
    ensures
        orbit_point(eccentricity, -phi).0 == orbit_point(eccentricity, phi).0,
        orbit_point(eccentricity, -phi).1 == -orbit_point(eccentricity, phi).1,
{
    lemma_sine_odd_cosine_even(phi);
    let radius = conic_radius(MOON_ORBIT_RADIUS as int, eccentricity, phi);
    lemma_product_bounds(sine(phi), radius);
    lemma_product_bounds(-sine(phi), radius);
    lemma_product_bounds(radius, sine(phi));
    lemma_product_bounds(radius, -sine(phi));
}

/// On a circular orbit every sample lies at the distance of the semi-latus
/// rectum: the outline is a circle.
pub proof fn lemma_circular_outline(phi: int)
    ensures
        conic_radius(MOON_ORBIT_RADIUS as int, 0, phi) == MOON_ORBIT_RADIUS,
        orbit_point(0, phi) == cartesian(MOON_ORBIT_RADIUS as int, phi),
{
    lemma_conic_radius_bounds(MOON_ORBIT_RADIUS as int, 0, phi);
}

/// The point of the orbit at the angle `phi` from periapsis.
pub fn orbit_point_at(eccentricity: Fixed, phi: Fixed) -> (r: Point)
    requires
        0 <= eccentricity <= MAX_ECCENTRICITY,
    ensures
        (r.0 as int, r.1 as int) == orbit_point(eccentricity as int, phi as int),
        magnitude(r.0 as int) <= 100 * MOON_ORBIT_RADIUS,
        magnitude(r.1 as int) <= 100 * MOON_ORBIT_RADIUS,
{
    let radius: i64 = orbital_radius(MOON_ORBIT_RADIUS, eccentricity, phi);
    to_cartesian(radius, phi)
}

/// The segment of the orbit's outline that begins at sample `index` of a
/// sweep in steps of `step`. Any segment can be asked for at any time, in any
/// order.
pub fn orbit_segment(eccentricity: Fixed, step: Fixed, index: usize) -> (r: Segment)
    requires
        0 <= eccentricity <= MAX_ECCENTRICITY,
        0 < step <= MAX_STEP,
        index < segment_count(step as int),
    ensures
        is_orbit_segment(r, eccentricity as int, step as int, index as int),
{
    proof {
        lemma_segment_count(step as int, index as int);
        assert((index + 1) * step == index * step + step) by (nonlinear_arith);
        assert(0 <= index * step) by (nonlinear_arith)
            requires
                0 <= index,
                0 < step,
        ;
    }
    let phi: i64 = (index as i64) * step;
    Segment {
        start: orbit_point_at(eccentricity, phi),
        end: orbit_point_at(eccentricity, phi + step),
    }
}

/// How many segments the outline has for a sweep in steps of `step`.
pub fn count_segments(step: Fixed) -> (r: i64)
    requires
        0 < step <= MAX_STEP,
    ensures
        r == segment_count(step as int),
        1 <= r <= TWO_PI,
{
    proof {
        lemma_segment_count(step as int, 0);
    }
    (TWO_PI + step - 1) / step
}

/// The outline of the orbit as a closed run of segments: the angle sweeps
/// from 0 in steps of `step` while it is below a full turn, and a segment
/// joins each sample to the next. The last segment ends at or beyond the
/// full turn.
pub fn sample_orbit_path(eccentricity: Fixed, step: Fixed) -> (path: Vec<Segment>)
    requires
        0 <= eccentricity <= MAX_ECCENTRICITY,
        0 < step <= MAX_STEP,
        segment_count(step as int) <= usize::MAX,
    ensures
        path@.len() == segment_count(step as int),
        forall|i: int|
            0 <= i < path@.len() ==> is_orbit_segment(
                #[trigger] path@[i],
                eccentricity as int,
                step as int,
                i,
            ),
{
    let count: usize = count_segments(step) as usize;
    let mut path: Vec<Segment> = Vec::new();
    let mut index: usize = 0;
    while index < count
        invariant
            0 <= eccentricity <= MAX_ECCENTRICITY,
            0 < step <= MAX_STEP,
            count == segment_count(step as int),
            index <= count,
            path@.len() == index,
            forall|i: int|
                0 <= i < path@.len() ==> is_orbit_segment(
                    #[trigger] path@[i],
                    eccentricity as int,
                    step as int,
                    i,
                ),
        decreases count - index,
    {
        let segment: Segment = orbit_segment(eccentricity, step, index);
        path.push(segment);
        index = index + 1;
    }
    path
}

} // verus!
