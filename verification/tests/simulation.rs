use libration::fixed::ONE;
use libration::orbit::MAX_ECCENTRICITY;
use libration::state::{
    event_for_key, Event, Key, SimulationState, DEFAULT_PERIOD_MS, ECCENTRICITY_STEP,
    INITIAL_SCALE,
};

fn playing_from(now_ms: u64) -> SimulationState {
    let mut state = SimulationState::new();
    state.toggle_play();
    state.tick(now_ms);
    state
}

#[test]
fn simulation_begins_paused_on_a_circle() {
    let state = SimulationState::new();
    assert!(!state.playing());
    assert_eq!(state.phase(), 0);
    assert_eq!(state.eccentricity(), 0);
    assert_eq!(state.zoom_steps(), 0);
    assert_eq!(state.period_ms(), 8_000);
    assert_eq!(state.period_ms(), DEFAULT_PERIOD_MS);
    assert_eq!(state.last_tick_ms(), None);
    assert!(!state.center_on_moon());
    assert_eq!(INITIAL_SCALE, 100);
}

#[test]
fn tick_does_nothing_while_paused() {
    let mut state = SimulationState::new();
    state.tick(1_000);
    state.tick(5_000);
    assert_eq!(state.phase(), 0);
    assert_eq!(state.last_tick_ms(), None);
    assert!(!state.playing());
}

#[test]
fn first_tick_only_notes_the_time() {
    let mut state = SimulationState::new();
    state.toggle_play();
    assert!(state.playing());
    state.tick(123_456);
    assert_eq!(state.phase(), 0);
    assert_eq!(state.last_tick_ms(), Some(123_456));
}

#[test]
fn tick_advances_the_phase_by_the_share_of_the_period() {
    let mut state = playing_from(1_000);
    state.tick(3_000);
    assert_eq!(state.phase(), ONE / 4);
    assert_eq!(state.last_tick_ms(), Some(3_000));
    state.tick(3_030);
    assert_eq!(state.phase(), ONE / 4 + 3_750_000_000_000);
    state.tick(3_031);
    assert_eq!(state.phase(), ONE / 4 + 3_875_000_000_000);
}

#[test]
fn phase_wraps_at_one() {
    let mut state = playing_from(0);
    state.tick(6_000);
    assert_eq!(state.phase(), 3 * ONE / 4);
    state.tick(10_000);
    assert_eq!(state.phase(), ONE / 4);
}

#[test]
fn phase_wraps_after_a_long_time() {
    let mut state = playing_from(0);
    state.tick(8_000 * 1_000 + 2_000);
    assert_eq!(state.phase(), ONE / 4);
    let mut late = playing_from(0);
    late.tick(u64::MAX);
    // 18446744073709551615 ms = 2305843009213693 periods and 7615 ms
    assert_eq!(late.phase(), 951_875_000_000_000);
    assert_eq!(late.last_tick_ms(), Some(u64::MAX));
}

#[test]
fn phase_of_exactly_one_is_kept() {
    let mut state = playing_from(0);
    state.tick(8_000);
    assert_eq!(state.phase(), ONE);
    state.tick(8_001);
    assert_eq!(state.phase(), 125_000_000_000);
    let mut twice = playing_from(0);
    twice.tick(16_000);
    assert_eq!(twice.phase(), ONE);
}

#[test]
fn phase_stays_in_range_over_many_ticks() {
    let mut state = playing_from(0);
    let mut now: u64 = 0;
    let mut gap: u64 = 1;
    for _ in 0..5_000 {
        now += gap;
        gap = (gap * 7 + 3) % 20_011;
        state.tick(now);
        assert!(0 <= state.phase() && state.phase() <= ONE);
        if state.phase() == ONE {
            assert_eq!(now % 8_000, 0);
        }
    }
    assert_eq!(state.phase(), ((now % 8_000) as i64) * (ONE / 8_000));
}

#[test]
fn clock_that_goes_back_adds_nothing() {
    let mut state = playing_from(5_000);
    state.tick(7_000);
    assert_eq!(state.phase(), ONE / 4);
    state.tick(1_000);
    assert_eq!(state.phase(), ONE / 4);
    assert_eq!(state.last_tick_ms(), Some(1_000));
    state.tick(3_000);
    assert_eq!(state.phase(), ONE / 2);
}

#[test]
fn eccentricity_plateaus_at_the_maximum() {
    let mut state = SimulationState::new();
    for presses in 1..=20 {
        state.raise_eccentricity();
        assert!(state.eccentricity() <= MAX_ECCENTRICITY);
        if presses < 10 {
            assert_eq!(state.eccentricity(), presses * ECCENTRICITY_STEP);
        } else {
            assert_eq!(state.eccentricity(), 990_000_000_000_000);
        }
    }
    assert_eq!(state.eccentricity(), MAX_ECCENTRICITY);
}

#[test]
fn eccentricity_returns_to_zero() {
    let mut state = SimulationState::new();
    for _ in 0..20 {
        state.raise_eccentricity();
    }
    for presses in 1..=20 {
        state.lower_eccentricity();
        assert!(state.eccentricity() >= 0);
        if presses < 10 {
            assert_eq!(state.eccentricity(), MAX_ECCENTRICITY - presses * ECCENTRICITY_STEP);
        } else {
            assert_eq!(state.eccentricity(), 0);
        }
    }
    state.lower_eccentricity();
    assert_eq!(state.eccentricity(), 0);
}

#[test]
fn eccentricity_steps_are_a_tenth() {
    let mut state = SimulationState::new();
    state.raise_eccentricity();
    assert_eq!(state.eccentricity(), ONE / 10);
    state.raise_eccentricity();
    state.raise_eccentricity();
    state.lower_eccentricity();
    assert_eq!(state.eccentricity(), ONE / 5);
}

#[test]
fn pause_forgets_the_last_tick() {
    let mut state = playing_from(1_000);
    state.tick(2_000);
    assert_eq!(state.last_tick_ms(), Some(2_000));
    state.toggle_play();
    assert!(!state.playing());
    assert_eq!(state.last_tick_ms(), None);
    assert_eq!(state.phase(), ONE / 8);
}

#[test]
fn resume_applies_no_time_jump() {
    let mut state = playing_from(1_000);
    state.tick(2_000);
    state.toggle_play();
    state.tick(500_000);
    state.toggle_play();
    state.tick(1_000_000);
    assert_eq!(state.phase(), ONE / 8);
    assert_eq!(state.last_tick_ms(), Some(1_000_000));
    state.tick(1_001_000);
    assert_eq!(state.phase(), ONE / 4);
}

#[test]
fn zoom_counts_steps() {
    let mut state = SimulationState::new();
    state.zoom_out();
    state.zoom_out();
    assert_eq!(state.zoom_steps(), 2);
    state.zoom_in();
    state.zoom_in();
    state.zoom_in();
    assert_eq!(state.zoom_steps(), -1);
    state.zoom_out();
    assert_eq!(state.zoom_steps(), 0);
}

#[test]
fn camera_toggles_between_earth_and_moon() {
    let mut state = SimulationState::new();
    state.toggle_center_on_moon();
    assert!(state.center_on_moon());
    state.toggle_center_on_moon();
    assert!(!state.center_on_moon());
}

#[test]
fn keys_stand_for_events() {
    assert_eq!(event_for_key(Key::Space), Some(Event::TogglePlay));
    assert_eq!(event_for_key(Key::E), Some(Event::RaiseEccentricity));
    assert_eq!(event_for_key(Key::Q), Some(Event::LowerEccentricity));
    assert_eq!(event_for_key(Key::Z), Some(Event::ZoomIn));
    assert_eq!(event_for_key(Key::X), Some(Event::ZoomOut));
    assert_eq!(event_for_key(Key::C), Some(Event::ToggleCenterOnMoon));
    assert_eq!(event_for_key(Key::Other), None);
}

#[test]
fn key_presses_change_the_state() {
    let mut state = SimulationState::new();
    state.press(Key::Space);
    assert!(state.playing());
    state.press(Key::E);
    assert_eq!(state.eccentricity(), ECCENTRICITY_STEP);
    state.press(Key::Q);
    assert_eq!(state.eccentricity(), 0);
    state.press(Key::Z);
    assert_eq!(state.zoom_steps(), -1);
    state.press(Key::X);
    state.press(Key::X);
    assert_eq!(state.zoom_steps(), 1);
    state.press(Key::C);
    assert!(state.center_on_moon());
    state.press(Key::Other);
    assert!(state.playing());
    assert_eq!(state.zoom_steps(), 1);
    assert!(state.center_on_moon());
    state.press(Key::Space);
    assert!(!state.playing());
}

#[test]
fn update_applies_each_event() {
    let mut state = SimulationState::new();
    state.update(Event::Tick(10));
    assert_eq!(state.last_tick_ms(), None);
    state.update(Event::TogglePlay);
    state.update(Event::Tick(10));
    state.update(Event::Tick(4_010));
    assert_eq!(state.phase(), ONE / 2);
    state.update(Event::RaiseEccentricity);
    state.update(Event::RaiseEccentricity);
    state.update(Event::LowerEccentricity);
    assert_eq!(state.eccentricity(), ECCENTRICITY_STEP);
    state.update(Event::ZoomOut);
    assert_eq!(state.zoom_steps(), 1);
    state.update(Event::ZoomIn);
    assert_eq!(state.zoom_steps(), 0);
    state.update(Event::ToggleCenterOnMoon);
    assert!(state.center_on_moon());
    assert_eq!(state.phase(), ONE / 2);
}

#[test]
fn moon_follows_the_phase() {
    let mut state = playing_from(0);
    assert_eq!(state.moon_pos().position, (-40 * ONE, 0));
    state.tick(4_000);
    let half = state.moon_pos();
    assert_eq!(half.mean_anomaly, 3_141_592_653_589_793);
    assert_eq!(half.true_anomaly, 3_141_592_653_589_792);
    assert_eq!(half.position, (40 * ONE, 80));
    for _ in 0..5 {
        state.raise_eccentricity();
    }
    state.tick(6_000);
    state.tick(10_000);
    let quarter = state.moon_pos();
    assert_eq!(state.phase(), ONE / 4);
    assert_eq!(quarter.eccentric_anomaly, 2_020_979_938_089_771);
    assert_eq!(quarter.position, (49_873_645_815_291_136, 41_586_180_666_536_574));
}
