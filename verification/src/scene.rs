//! What is drawn each frame, in world units with Earth at the origin.
//!
//! A frame holds Earth, the outline of the orbit, the Moon with an arrow that
//! shows which way its near side faces, and a line from Earth to the Moon.
//! The camera looks at Earth or at the Moon.

use crate::fixed::{fixed_product, lemma_product_bounds, mul_fixed, Fixed, ONE, TWO_PI};
use crate::orbit::{
    is_orbit_segment, lemma_moon_position_bounds, moon_position, sample_orbit_path,
    segment_count, Point, Segment, DEFAULT_STEP,
};
use crate::state::SimulationState;
use vstd::prelude::*;

verus! {

/// The radius of Earth's disc: 5.
pub const EARTH_RADIUS: i64 = 5_000_000_000_000_000;

/// The radius of the Moon's disc: 1.5.
pub const MOON_RADIUS: i64 = 1_500_000_000_000_000;

/// The length of the arrow on the Moon: 20.
pub const INDICATOR_LENGTH: i64 = 20_000_000_000_000_000;

/// The length and the width of the arrow's head: 2.
pub const INDICATOR_ARROW_SIZE: i64 = 2_000_000_000_000_000;

/// The angle by which the arrow on the Moon is turned at `phase`: the Moon
/// turns once an orbit at an even rate, so the angle is `-phase * 2π`.
pub open spec fn indicator_angle(phase: int) -> int {
    -fixed_product(phase, TWO_PI as int)
}

/// Where the camera's centre is moved to before anything is drawn: by the
/// Moon's position backwards when the camera follows the Moon, not at all
/// when it rests on Earth.
pub open spec fn camera_shift(center_on_moon: bool, moon: (int, int)) -> (int, int) {
    if center_on_moon {
        (-moon.0, -moon.1)
    } else {
        (0, 0)
    }
}

/// What one frame shows.
#[derive(Debug)]
pub struct Frame {
    /// By how much everything is moved before it is drawn.
    pub camera: Point,
    /// The outline of the orbit.
    pub orbit: Vec<Segment>,
    /// The centre of the Moon's disc. The line from Earth ends here, and the
    /// arrow begins here.
    pub moon: Point,
    /// The angle by which the arrow is turned around the Moon's centre.
    pub indicator_rotation: Fixed,
}

/// The corners of the arrow's head before it is turned and moved to the
/// Moon: the tip, the two corners behind it, and the tip again.
pub fn arrow_head() -> (r: [Point; 4])
    ensures
        r[0].0 == INDICATOR_LENGTH && r[0].1 == 0,
        r[1].0 == INDICATOR_LENGTH - INDICATOR_ARROW_SIZE && r[1].1 == INDICATOR_ARROW_SIZE / 2,
        r[2].0 == INDICATOR_LENGTH - INDICATOR_ARROW_SIZE && r[2].1 == -(INDICATOR_ARROW_SIZE / 2),
        r[3] == r[0],
{
    [
        (INDICATOR_LENGTH, 0),
        (INDICATOR_LENGTH - INDICATOR_ARROW_SIZE, INDICATOR_ARROW_SIZE / 2),
        (INDICATOR_LENGTH - INDICATOR_ARROW_SIZE, -(INDICATOR_ARROW_SIZE / 2)),
        (INDICATOR_LENGTH, 0),
    ]
}

/// The angle by which the arrow on the Moon is turned at `phase`.
pub fn indicator_rotation(phase: Fixed) -> (r: Fixed)
    requires
        0 <= phase <= ONE,
    ensures
        r == indicator_angle(phase as int),
        -TWO_PI <= r <= 0,
{
    proof {
        lemma_product_bounds(TWO_PI as int, phase as int);
    }
    -mul_fixed(phase, TWO_PI)
}

/// Plans the frame that shows `state`.
pub fn plan_frame(state: &SimulationState) -> (frame: Frame)
    ensures
        (frame.moon.0 as int, frame.moon.1 as int) == moon_position(
            state@.phase,
            state@.eccentricity,
        ),
        (frame.camera.0 as int, frame.camera.1 as int) == camera_shift(
            state@.center_on_moon,
            moon_position(state@.phase, state@.eccentricity),
        ),
        frame.indicator_rotation == indicator_angle(state@.phase),
        frame.orbit@.len() == segment_count(DEFAULT_STEP as int),
        forall|i: int|
            0 <= i < frame.orbit@.len() ==> is_orbit_segment(
                #[trigger] frame.orbit@[i],
                state@.eccentricity,
                DEFAULT_STEP as int,
                i,
            ),
{
    let moon: Point = state.moon_pos().position;
    proof {
        lemma_moon_position_bounds(state@.phase, state@.eccentricity);
    }
    let camera: Point = if state.center_on_moon() {
        (-moon.0, -moon.1)
    } else {
        (0, 0)
    };
    Frame {
        camera,
        orbit: sample_orbit_path(state.eccentricity(), DEFAULT_STEP),
        moon,
        indicator_rotation: indicator_rotation(state.phase()),
    }
}

} // verus!
