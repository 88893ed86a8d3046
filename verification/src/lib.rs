//! A verified model of the Moon's libration as seen from Earth: a two-body
//! Keplerian orbit solved in decimal fixed-point arithmetic, and the
//! play/pause state machine that drives it.
//!
//! - [`fixed`]: numbers in units of `10^-15`, their products, quotients and
//!   square roots.
//! - [`trig`]: sine, cosine and arctangent on such numbers.
//! - [`orbit`]: Kepler's equation, the Moon's position, the orbit's outline.
//! - [`state`]: the simulation's state, the clock ticks and the keys.
//! - [`scene`]: what a frame shows.

pub mod fixed;
pub mod orbit;
pub mod scene;
pub mod state;
pub mod trig;
