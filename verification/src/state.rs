//! The simulation's state and the events that change it.
//!
//! The state is either playing or paused. While it plays, each tick moves
//! the phase forward by the share of the period that went by since the tick
//! before; the phase wraps at 1. Keys pause and resume, change the
//! eccentricity in steps of 0.1 between 0 and 0.99, zoom by a factor of 1.1 a
//! step, and switch the camera between Earth and the Moon.

use crate::fixed::{Fixed, ONE};
use crate::orbit::{
    eccentric_anomaly_of, mean_anomaly_of, moon_anomaly, moon_position, moon_radius,
    solve_moon_position, within_tolerance, OrbitState, MAX_ECCENTRICITY,
};
use vstd::arithmetic::power::pow;
use vstd::prelude::*;

verus! {

/// How far one key press moves the eccentricity: 0.1.
pub const ECCENTRICITY_STEP: i64 = 100_000_000_000_000;

/// The time of one orbit, in milliseconds of wall-clock time.
pub const DEFAULT_PERIOD_MS: u64 = 8_000;

/// The scale before any zoom: world units across the smaller side of the
/// viewport.
pub const INITIAL_SCALE: u64 = 100;

/// What can happen to the simulation.
#[derive(Clone, Copy, Debug, PartialEq, Eq, Structural)]
pub enum Event {
    /// The clock reached this many milliseconds.
    Tick(u64),
    /// Pause, or resume.
    TogglePlay,
    /// Eccentricity up by 0.1, to at most 0.99.
    RaiseEccentricity,
    /// Eccentricity down by 0.1, to at least 0.
    LowerEccentricity,
    /// Scale divided by 1.1.
    ZoomIn,
    /// Scale multiplied by 1.1.
    ZoomOut,
    /// The camera moves from Earth to the Moon, or back.
    ToggleCenterOnMoon,
}

/// A key of the keyboard, as far as the simulation tells keys apart.
#[derive(Clone, Copy, Debug, PartialEq, Eq, Structural)]
pub enum Key {
    Space,
    E,
    Q,
    Z,
    X,
    C,
    /// Any other key.
    Other,
}

/// The event that a key press stands for, if any.
pub open spec fn key_binding(key: Key) -> Option<Event> {
    match key {
        Key::Space => Some(Event::TogglePlay),
        Key::E => Some(Event::RaiseEccentricity),
        Key::Q => Some(Event::LowerEccentricity),
        Key::Z => Some(Event::ZoomIn),
        Key::X => Some(Event::ZoomOut),
        Key::C => Some(Event::ToggleCenterOnMoon),
        Key::Other => None,
    }
}

/// The phase that `total` wraps to: 1 is taken away while more than 1 is
/// left. A phase of exactly 1 stays, and a negative one is never corrected.
pub open spec fn wrap_phase(total: int) -> int
    decreases total,
{
    if total > ONE {
        wrap_phase(total - ONE)
    } else {
        total
    }
}

/// The time that went by between two ticks; none if the clock went back.
pub open spec fn elapsed_between(last_ms: int, now_ms: int) -> int {
    if now_ms >= last_ms {
        now_ms - last_ms
    } else {
        0
    }
}

/// The share of the period that `elapsed_ms` makes up, rounded down.
pub open spec fn phase_delta(elapsed_ms: int, period_ms: int) -> int {
    elapsed_ms * ONE / period_ms
}

/// The eccentricity after one step up.
pub open spec fn raised(eccentricity: int) -> int {
    if eccentricity + ECCENTRICITY_STEP > MAX_ECCENTRICITY {
        MAX_ECCENTRICITY as int
    } else {
        eccentricity + ECCENTRICITY_STEP
    }
}

/// The eccentricity after one step down.
pub open spec fn lowered(eccentricity: int) -> int {
    if eccentricity - ECCENTRICITY_STEP < 0 {
        0
    } else {
        eccentricity - ECCENTRICITY_STEP
    }
}

/// The eccentricity after `times` steps up.
pub open spec fn raised_times(eccentricity: int, times: nat) -> int
    decreases times,
{
    if times == 0 {
        eccentricity
    } else {
        raised(raised_times(eccentricity, (times - 1) as nat))
    }
}

/// The eccentricity after `times` steps down.
pub open spec fn lowered_times(eccentricity: int, times: nat) -> int
    decreases times,
{
    if times == 0 {
        eccentricity
    } else {
        lowered(lowered_times(eccentricity, (times - 1) as nat))
    }
}

/// The numerator of the scale after `steps` zoom steps outward: the scale is
/// `100 * (11/10)^steps`.
pub open spec fn scale_numerator(steps: int) -> int {
    if steps >= 0 {
        INITIAL_SCALE * pow(11, steps as nat)
    } else {
        INITIAL_SCALE * pow(10, (-steps) as nat)
    }
}

/// The denominator of the scale after `steps` zoom steps outward.
pub open spec fn scale_denominator(steps: int) -> int {
    if steps >= 0 {
        pow(10, steps as nat)
    } else {
        pow(11, (-steps) as nat)
    }
}

/// The simulation's state as plain numbers.
pub struct SimulationModel {
    /// Whether the phase advances.
    pub playing: bool,
    /// How many steps the view is zoomed out; negative when zoomed in.
    pub zoom_steps: int,
    /// The fraction of the period that has gone by.
    pub phase: int,
    /// The time of one orbit, in milliseconds.
    pub period_ms: int,
    /// The eccentricity of the orbit.
    pub eccentricity: int,
    /// The time of the last tick, if one came since the simulation last
    /// began to play.
    pub last_tick_ms: Option<int>,
    /// Whether the camera follows the Moon.
    pub center_on_moon: bool,
}

impl SimulationModel {
    /// The state in which every simulation begins: paused at phase 0 on a
    /// circular orbit, not zoomed, the camera on Earth.
    pub open spec fn initial() -> SimulationModel {
        SimulationModel {
            playing: false,
            zoom_steps: 0,
            phase: 0,
            period_ms: DEFAULT_PERIOD_MS as int,
            eccentricity: 0,
            last_tick_ms: None,
            center_on_moon: false,
        }
    }

    /// What holds of every state: the phase lies between 0 and 1, the
    /// eccentricity between 0 and 0.99, the period is positive, and a paused
    /// simulation remembers no tick.
    pub open spec fn wf(self) -> bool {
        &&& 0 <= self.phase <= ONE
        &&& 0 < self.period_ms
        &&& 0 <= self.eccentricity <= MAX_ECCENTRICITY
        &&& !self.playing ==> self.last_tick_ms is None
    }

    /// The phase before wrapping that a tick at `now_ms` leads to.
    pub open spec fn advanced_phase(self, now_ms: int) -> int {
        match self.last_tick_ms {
            Some(last_ms) => self.phase + phase_delta(
                elapsed_between(last_ms, now_ms),
                self.period_ms,
            ),
            None => self.phase,
        }
    }

    /// A tick of the clock at `now_ms`. It does nothing to a paused
    /// simulation. The first tick after the simulation began to play only
    /// notes the time.
    pub open spec fn tick(self, now_ms: int) -> SimulationModel {
        if self.playing {
            SimulationModel {
                phase: wrap_phase(self.advanced_phase(now_ms)),
                last_tick_ms: Some(now_ms),
                ..self
            }
        } else {
            self
        }
    }

    /// Pause or resume. Pausing forgets the last tick.
    pub open spec fn toggle_play(self) -> SimulationModel {
        if self.playing {
            SimulationModel { playing: false, last_tick_ms: None, ..self }
        } else {
            SimulationModel { playing: true, ..self }
        }
    }

    /// Eccentricity one step up.
    pub open spec fn raise_eccentricity(self) -> SimulationModel {
        SimulationModel { eccentricity: raised(self.eccentricity), ..self }
    }

    /// Eccentricity one step down.
    pub open spec fn lower_eccentricity(self) -> SimulationModel {
        SimulationModel { eccentricity: lowered(self.eccentricity), ..self }
    }

    /// One zoom step inward: the scale is divided by 1.1. The count of steps
    /// stops at the end of its number range.
    pub open spec fn zoom_in(self) -> SimulationModel {
        if self.zoom_steps > i64::MIN {
            SimulationModel { zoom_steps: self.zoom_steps - 1, ..self }
        } else {
            self
        }
    }

    /// One zoom step outward: the scale is multiplied by 1.1. The count of
    /// steps stops at the end of its number range.
    pub open spec fn zoom_out(self) -> SimulationModel {
        if self.zoom_steps < i64::MAX {
            SimulationModel { zoom_steps: self.zoom_steps + 1, ..self }
        } else {
            self
        }
    }

    /// The camera moves from Earth to the Moon, or back.
    pub open spec fn toggle_center_on_moon(self) -> SimulationModel {
        SimulationModel { center_on_moon: !self.center_on_moon, ..self }
    }

    /// The state after `event`.
    pub open spec fn step(self, event: Event) -> SimulationModel {
        match event {
            Event::Tick(now_ms) => self.tick(now_ms as int),
            Event::TogglePlay => self.toggle_play(),
            Event::RaiseEccentricity => self.raise_eccentricity(),
            Event::LowerEccentricity => self.lower_eccentricity(),
            Event::ZoomIn => self.zoom_in(),
            Event::ZoomOut => self.zoom_out(),
            Event::ToggleCenterOnMoon => self.toggle_center_on_moon(),
        }
    }

    /// The state after a key press: that of the key's event, or the same
    /// state for a key that stands for none.
    pub open spec fn press(self, key: Key) -> SimulationModel {
        match key_binding(key) {
            Some(event) => self.step(event),
            None => self,
        }
    }

    /// The state after the events of `events`, in their order.
    pub open spec fn run(self, events: Seq<Event>) -> SimulationModel
        decreases events.len(),
    {
        if events.len() == 0 {
            self
        } else {
            self.run(events.drop_last()).step(events.last())
        }
    }
}

/// Wrapping in closed form: a positive total wraps to a phase above 0 and up
/// to 1 that differs from it by a whole number; a total up to 1 is kept.
pub proof fn lemma_wrap_phase(total: int)
    ensures
        total <= ONE ==> wrap_phase(total) == total,
        total > 0 ==> wrap_phase(total) == (total - 1) % (ONE as int) + 1,
        total >= 0 ==> 0 <= wrap_phase(total) <= ONE,
        total >= 0 ==> (wrap_phase(total) == ONE <==> total > 0 && total % (ONE as int) == 0),
    decreases total,
{
    if total > ONE {
        lemma_wrap_phase(total - ONE);
    }
}

/// Every event leads from a well-formed state to a well-formed state. So
/// the phase never leaves the interval from 0 to 1, however long the time
/// between two ticks, and the eccentricity never exceeds 0.99.
pub proof fn lemma_step_preserves_wf(state: SimulationModel, event: Event)
    requires
        state.wf(),
    ensures
        state.step(event).wf(),
{
    if let Event::Tick(now_ms) = event {
        lemma_tick_phase(state, now_ms as int);
    }
}

/// After a tick the phase lies between 0 and 1. It is exactly 1 only where
/// the phase before wrapping is a positive whole number of periods; in every
/// other case it is below 1.
pub proof fn lemma_tick_phase(state: SimulationModel, now_ms: int)
    requires
        state.wf(),
    ensures
        0 <= state.tick(now_ms).phase <= ONE,
        state.advanced_phase(now_ms) >= state.phase,
        state.playing ==> (state.tick(now_ms).phase == ONE <==> state.advanced_phase(now_ms) > 0
            && state.advanced_phase(now_ms) % (ONE as int) == 0),
        state.playing ==> (state.tick(now_ms).phase - state.advanced_phase(now_ms)) % (ONE as int)
            == 0,
{
    let total = state.advanced_phase(now_ms);
    if let Some(last_ms) = state.last_tick_ms {
        let elapsed = elapsed_between(last_ms, now_ms);
        assert(0 <= elapsed * ONE) by (nonlinear_arith)
            requires
                0 <= elapsed,
        ;
        vstd::arithmetic::div_mod::lemma_div_pos_is_pos(elapsed * ONE, state.period_ms);
    }
    lemma_wrap_phase(total);
}

/// Any run of events leads from a well-formed state to a well-formed state.
pub proof fn lemma_run_preserves_wf(state: SimulationModel, events: Seq<Event>)
    requires
        state.wf(),
    ensures
        state.run(events).wf(),
    decreases events.len(),
{
    if events.len() > 0 {
        lemma_run_preserves_wf(state, events.drop_last());
        lemma_step_preserves_wf(state.run(events.drop_last()), events.last());
    }
}

/// Steps up add 0.1 each until 0.99 is reached, and from the tenth step on
/// the eccentricity is exactly 0.99. Steps down take 0.1 away each until 0 is
/// reached, and from the tenth on the eccentricity is exactly 0.
pub proof fn lemma_eccentricity_plateau(eccentricity: int, times: nat)
    requires
        0 <= eccentricity <= MAX_ECCENTRICITY,
    ensures
        raised_times(eccentricity, times) == if eccentricity + times * ECCENTRICITY_STEP
            > MAX_ECCENTRICITY {
            MAX_ECCENTRICITY as int
        } else {
            eccentricity + times * ECCENTRICITY_STEP
        },
        lowered_times(eccentricity, times) == if eccentricity - times * ECCENTRICITY_STEP < 0 {
            0
        } else {
            eccentricity - times * ECCENTRICITY_STEP
        },
        times >= 10 ==> raised_times(eccentricity, times) == MAX_ECCENTRICITY,
        times >= 10 ==> lowered_times(eccentricity, times) == 0,
    decreases times,
{
    if times > 0 {
        lemma_eccentricity_plateau(eccentricity, (times - 1) as nat);
    }
}

/// No time jump across a pause: the first tick after the simulation is
/// resumed leaves the phase as it was, whatever the clock shows.
pub proof fn lemma_resume_applies_no_delta(state: SimulationModel, now_ms: int)
    requires
        state.wf(),
    ensures
        !state.playing ==> state.toggle_play().tick(now_ms).phase == state.phase,
        state.playing ==> state.toggle_play().toggle_play().tick(now_ms).phase == state.phase,
        state.toggle_play().wf(),
{
    lemma_wrap_phase(state.phase);
}

/// The scale is positive, and one zoom step outward multiplies it by 11/10.
pub proof fn lemma_zoom_scales(steps: int)
    ensures
        scale_numerator(steps) > 0,
        scale_denominator(steps) > 0,
        10 * scale_numerator(steps + 1) * scale_denominator(steps) == 11 * scale_numerator(steps)
            * scale_denominator(steps + 1),
        scale_numerator(0) == INITIAL_SCALE,
        scale_denominator(0) == 1,
{
    vstd::arithmetic::power::lemma_pow0(10);
    vstd::arithmetic::power::lemma_pow0(11);
    let up: nat = if steps >= 0 {
        steps as nat
    } else {
        (-steps - 1) as nat
    };
    vstd::arithmetic::power::lemma_pow_positive(10, up);
    vstd::arithmetic::power::lemma_pow_positive(11, up);
    vstd::arithmetic::power::lemma_pow_positive(10, up + 1);
    vstd::arithmetic::power::lemma_pow_positive(11, up + 1);
    let t10 = pow(10, up);
    let t11 = pow(11, up);
    assert(pow(10, up + 1) == 10 * t10 && pow(11, up + 1) == 11 * t11) by {
        reveal(pow);
    }
    if steps >= 0 {
        assert(10 * (100 * (11 * t11)) * t10 == 11 * (100 * t11) * (10 * t10))
            by (nonlinear_arith);
    } else {
        assert(10 * (100 * t10) * (11 * t11) == 11 * (100 * (10 * t10)) * t11)
            by (nonlinear_arith);
    }
    assert(100 * t11 > 0 && 100 * t10 > 0 && 100 * (11 * t11) > 0 && 100 * (10 * t10) > 0)
        by (nonlinear_arith)
        requires
            t10 > 0,
            t11 > 0,
    ;
}

/// The state of the simulation.
#[derive(Clone, Copy, Debug)]
pub struct SimulationState {
    playing: bool,
    zoom_steps: i64,
    phase: Fixed,
    period_ms: u64,
    eccentricity: Fixed,
    last_tick_ms: Option<u64>,
    center_on_moon: bool,
}

impl View for SimulationState {
    type V = SimulationModel;

    closed spec fn view(&self) -> SimulationModel {
        SimulationModel {
            playing: self.playing,
            zoom_steps: self.zoom_steps as int,
            phase: self.phase as int,
            period_ms: self.period_ms as int,
            eccentricity: self.eccentricity as int,
            last_tick_ms: match self.last_tick_ms {
                Some(last_ms) => Some(last_ms as int),
                None => None,
            },
            center_on_moon: self.center_on_moon,
        }
    }
}

/// The event that a key press stands for, if any.
pub fn event_for_key(key: Key) -> (r: Option<Event>)
    ensures
        r == key_binding(key),
{
    match key {
        Key::Space => Some(Event::TogglePlay),
        Key::E => Some(Event::RaiseEccentricity),
        Key::Q => Some(Event::LowerEccentricity),
        Key::Z => Some(Event::ZoomIn),
        Key::X => Some(Event::ZoomOut),
        Key::C => Some(Event::ToggleCenterOnMoon),
        Key::Other => None,
    }
}

impl SimulationState {
    #[verifier::type_invariant]
    spec fn inv(self) -> bool {
        self@.wf()
    }

    /// The state in which every simulation begins.
    pub fn new() -> (r: SimulationState)
        ensures
            r@ == SimulationModel::initial(),
            r@.wf(),
    {
        SimulationState {
            playing: false,
            zoom_steps: 0,
            phase: 0,
            period_ms: DEFAULT_PERIOD_MS,
            eccentricity: 0,
            last_tick_ms: None,
            center_on_moon: false,
        }
    }

    /// Applies `event`.
    pub fn update(&mut self, event: Event)
        ensures
            final(self)@ == old(self)@.step(event),
            final(self)@.wf(),
    {
        match event {
            Event::Tick(now_ms) => self.tick(now_ms),
            Event::TogglePlay => self.toggle_play(),
            Event::RaiseEccentricity => self.raise_eccentricity(),
            Event::LowerEccentricity => self.lower_eccentricity(),
            Event::ZoomIn => self.zoom_in(),
            Event::ZoomOut => self.zoom_out(),
            Event::ToggleCenterOnMoon => self.toggle_center_on_moon(),
        }
    }

    /// Applies the event that `key` stands for, if any.
    pub fn press(&mut self, key: Key)
        ensures
            final(self)@ == old(self)@.press(key),
            final(self)@.wf(),
    {
        proof {
            use_type_invariant(&*self);
        }
        match event_for_key(key) {
            Some(event) => self.update(event),
            None => {},
        }
    }

    /// A tick of the clock, which shows `now_ms` milliseconds.
    pub fn tick(&mut self, now_ms: u64)
        ensures
            final(self)@ == old(self)@.tick(now_ms as int),
            final(self)@.wf(),
    {
        proof {
            use_type_invariant(&*self);
            lemma_tick_phase(self@, now_ms as int);
        }
        if self.playing {
            if let Some(last_ms) = self.last_tick_ms {
                let elapsed: u64 = if now_ms >= last_ms {
                    now_ms - last_ms
                } else {
                    0
                };
                proof {
                    assert(0 <= elapsed * ONE <= 0xffff_ffff_ffff_ffff * ONE) by (nonlinear_arith)
                        requires
                            0 <= elapsed <= 0xffff_ffff_ffff_ffff,
                    ;
                    vstd::arithmetic::div_mod::lemma_div_pos_is_pos(
                        elapsed * ONE,
                        self.period_ms as int,
                    );
                    vstd::arithmetic::div_mod::lemma_div_is_ordered_by_denominator(
                        elapsed * ONE,
                        1,
                        self.period_ms as int,
                    );
                }
                let delta: u128 = (elapsed as u128) * (ONE as u128) / (self.period_ms as u128);
                let total: u128 = self.phase as u128 + delta;
                proof {
                    lemma_wrap_phase(total as int);
                }
                let wrapped: u128 = if total > ONE as u128 {
                    (total - 1) % (ONE as u128) + 1
                } else {
                    total
                };
                self.phase = wrapped as i64;
            }
            self.last_tick_ms = Some(now_ms);
        }
    }

    /// Pauses a playing simulation, resumes a paused one.
    pub fn toggle_play(&mut self)
        ensures
            final(self)@ == old(self)@.toggle_play(),
            final(self)@.wf(),
    {
        proof {
            use_type_invariant(&*self);
        }
        if self.playing {
            self.last_tick_ms = None;
            self.playing = false;
        } else {
            self.playing = true;
        }
    }

    /// Moves the eccentricity up by 0.1, to at most 0.99.
    pub fn raise_eccentricity(&mut self)
        ensures
            final(self)@ == old(self)@.raise_eccentricity(),
            final(self)@.wf(),
    {
        proof {
            use_type_invariant(&*self);
        }
        if self.eccentricity > MAX_ECCENTRICITY - ECCENTRICITY_STEP {
            self.eccentricity = MAX_ECCENTRICITY;
        } else {
            self.eccentricity = self.eccentricity + ECCENTRICITY_STEP;
        }
    }

    /// Moves the eccentricity down by 0.1, to at least 0.
    pub fn lower_eccentricity(&mut self)
        ensures
            final(self)@ == old(self)@.lower_eccentricity(),
            final(self)@.wf(),
    {
        proof {
            use_type_invariant(&*self);
        }
        if self.eccentricity < ECCENTRICITY_STEP {
            self.eccentricity = 0;
        } else {
            self.eccentricity = self.eccentricity - ECCENTRICITY_STEP;
        }
    }

    /// Zooms in by one step.
    pub fn zoom_in(&mut self)
        ensures
            final(self)@ == old(self)@.zoom_in(),
            final(self)@.wf(),
    {
        proof {
            use_type_invariant(&*self);
        }
        if self.zoom_steps > i64::MIN {
            self.zoom_steps = self.zoom_steps - 1;
        }
    }

    /// Zooms out by one step.
    pub fn zoom_out(&mut self)
        ensures
            final(self)@ == old(self)@.zoom_out(),
            final(self)@.wf(),
    {
        proof {
            use_type_invariant(&*self);
        }
        if self.zoom_steps < i64::MAX {
            self.zoom_steps = self.zoom_steps + 1;
        }
    }

    /// Moves the camera from Earth to the Moon, or back.
    pub fn toggle_center_on_moon(&mut self)
        ensures
            final(self)@ == old(self)@.toggle_center_on_moon(),
            final(self)@.wf(),
    {
        proof {
            use_type_invariant(&*self);
        }
        self.center_on_moon = !self.center_on_moon;
    }

    /// Where the Moon is at the state's phase, on an orbit of the state's
    /// eccentricity.
    pub fn moon_pos(&self) -> (r: OrbitState)
        ensures
            r.mean_anomaly == mean_anomaly_of(self@.phase),
            r.eccentric_anomaly == eccentric_anomaly_of(self@.phase, self@.eccentricity),
            r.true_anomaly == moon_anomaly(self@.phase, self@.eccentricity),
            r.orbital_radius == moon_radius(self@.phase, self@.eccentricity),
            (r.position.0 as int, r.position.1 as int) == moon_position(
                self@.phase,
                self@.eccentricity,
            ),
            r.converged == within_tolerance(
                r.eccentric_anomaly as int,
                r.mean_anomaly as int,
                self@.eccentricity,
            ),
            self@.wf(),
    {
        proof {
            use_type_invariant(self);
        }
        solve_moon_position(self.phase, self.eccentricity)
    }

    /// Whether the phase advances.
    pub fn playing(&self) -> (r: bool)
        ensures
            r == self@.playing,
            !r ==> self@.last_tick_ms is None,
    {
        proof {
            use_type_invariant(self);
        }
        self.playing
    }

    /// The fraction of the period that has gone by, between 0 and 1.
    pub fn phase(&self) -> (r: Fixed)
        ensures
            r == self@.phase,
            0 <= r <= ONE,
    {
        proof {
            use_type_invariant(self);
        }
        self.phase
    }

    /// The eccentricity of the orbit, between 0 and 0.99.
    pub fn eccentricity(&self) -> (r: Fixed)
        ensures
            r == self@.eccentricity,
            0 <= r <= MAX_ECCENTRICITY,
    {
        proof {
            use_type_invariant(self);
        }
        self.eccentricity
    }

    /// How many steps the view is zoomed out, negative when zoomed in. The
    /// scale is `100 * 1.1^steps` world units across the smaller side of the
    /// viewport.
    pub fn zoom_steps(&self) -> (r: i64)
        ensures
            r == self@.zoom_steps,
    {
        self.zoom_steps
    }

    /// The time of one orbit, in milliseconds.
    pub fn period_ms(&self) -> (r: u64)
        ensures
            r == self@.period_ms,
            r > 0,
    {
        proof {
            use_type_invariant(self);
        }
        self.period_ms
    }

    /// The time of the last tick, if one came since the simulation last
    /// began to play.
    pub fn last_tick_ms(&self) -> (r: Option<u64>)
        ensures
            match r {
                Some(last_ms) => self@.last_tick_ms == Some(last_ms as int),
                None => self@.last_tick_ms is None,
            },
    {
        self.last_tick_ms
    }

    /// Whether the camera follows the Moon.
    pub fn center_on_moon(&self) -> (r: bool)
        ensures
            r == self@.center_on_moon,
    {
        self.center_on_moon
    }
}

} // verus!
