//! Fixed-point simulation of simple pendulums under gravity, with optional
//! viscous damping, advanced one tick at a time.
//!
//! Every real quantity is held as a signed integer count of billionths of
//! its unit (see [`fixed::SCALE`]): angles in nanoradians, times in
//! nanoseconds, lengths in billionths of a length unit. A result that does
//! not fit the representation is reported as a numerical fault.
pub mod clock;
pub mod error;
pub mod fixed;
pub mod integrator;
pub mod pendulum;
pub mod trig;
