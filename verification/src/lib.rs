//! A discrete-time proportional-integral-derivative (PID) feedback
//! controller, verified over exact rational arithmetic.
//!
//! The controller consumes one error sample per fixed sampling interval and
//! returns a corrective control signal.  Its update rule — conditional
//! integration gated by an anti-windup latch, exponentially smoothed
//! backward-difference derivative, and a raw (unclamped) output — is stated
//! in the contracts of [`pid::PidController`] and proved against the exact
//! rational model in [`rat`].

pub mod pid;
pub mod rat;
