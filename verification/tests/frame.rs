use libration::fixed::{ONE, TWO_PI};
use libration::scene::{
    arrow_head, indicator_rotation, plan_frame, EARTH_RADIUS, INDICATOR_ARROW_SIZE,
    INDICATOR_LENGTH, MOON_RADIUS,
};
use libration::state::SimulationState;

#[test]
fn sizes_of_the_bodies() {
    assert_eq!(EARTH_RADIUS, 5 * ONE);
    assert_eq!(MOON_RADIUS, 3 * ONE / 2);
    assert_eq!(INDICATOR_LENGTH, 20 * ONE);
    assert_eq!(INDICATOR_ARROW_SIZE, 2 * ONE);
}

#[test]
fn arrow_head_is_a_closed_triangle() {
    let head = arrow_head();
    assert_eq!(head[0], (20 * ONE, 0));
    assert_eq!(head[1], (18 * ONE, ONE));
    assert_eq!(head[2], (18 * ONE, -ONE));
    assert_eq!(head[3], head[0]);
}

#[test]
fn arrow_turns_against_the_phase() {
    assert_eq!(indicator_rotation(0), 0);
    assert_eq!(indicator_rotation(ONE / 4), -1_570_796_326_794_896);
    assert_eq!(indicator_rotation(ONE / 2), -3_141_592_653_589_793);
    assert_eq!(indicator_rotation(ONE), -TWO_PI);
}

#[test]
fn frame_of_the_first_state() {
    let state = SimulationState::new();
    let frame = plan_frame(&state);
    assert_eq!(frame.camera, (0, 0));
    assert_eq!(frame.moon, (-40 * ONE, 0));
    assert_eq!(frame.indicator_rotation, 0);
    assert_eq!(frame.orbit.len(), 629);
    assert_eq!(frame.orbit[0].start, (-40 * ONE, 0));
}

#[test]
fn camera_follows_the_moon_when_asked() {
    let mut state = SimulationState::new();
    state.toggle_play();
    state.tick(0);
    state.tick(2_000);
    for _ in 0..5 {
        state.raise_eccentricity();
    }
    let resting = plan_frame(&state);
    assert_eq!(resting.camera, (0, 0));
    assert_eq!(resting.moon, (49_873_645_815_291_136, 41_586_180_666_536_574));
    assert_eq!(resting.indicator_rotation, -1_570_796_326_794_896);
    state.toggle_center_on_moon();
    let following = plan_frame(&state);
    assert_eq!(following.moon, resting.moon);
    assert_eq!(following.camera, (-49_873_645_815_291_136, -41_586_180_666_536_574));
    assert_eq!(following.orbit.len(), 629);
    assert_eq!(following.orbit[0].start, (-26_666_666_666_666_666, 0));
}
