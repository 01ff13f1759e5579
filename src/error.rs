use vstd::prelude::*;

verus! {

/// The ways a tick of the simulation can fail.
#[derive(Clone, Copy, Debug, PartialEq, Eq, Structural)]
pub enum SimError {
    /// The time step is negative: simulated time must not move backward.
    InvalidTimeDelta,
    /// A rod length is not positive, or a computed value does not fit the
    /// fixed-point representation.
    NumericalFault,
    /// The wall clock reported an instant earlier than the one before.
    ClockRewound,
}

} // verus!
