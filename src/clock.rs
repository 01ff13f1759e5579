//! Where each tick's time step comes from.
use vstd::prelude::*;
use crate::error::SimError;
use crate::fixed::fits_i64;

verus! {

/// Measures the time between successive readings of a monotonic clock,
/// in nanoseconds.
#[derive(Clone, Copy, Debug, PartialEq, Eq, Structural)]
pub struct WallClock {
    last: i64,
}

impl WallClock {
    /// The instant most recently observed.
    pub closed spec fn last_spec(&self) -> int {
        self.last as int
    }

    /// A clock whose first step is measured from `start`.
    pub fn new(start: i64) -> (r: WallClock)
        ensures
            r.last_spec() == start,
    {
        WallClock { last: start }
    }

    pub fn last_instant(&self) -> (r: i64)
        ensures
            r == self.last_spec(),
    {
        self.last
    }

    /// The time from the last observed instant to `now`, which becomes the
    /// last observed instant. A reading earlier than the last one is
    /// refused, as is a gap too long for an `i64`; either way the clock is
    /// left as it was.
    pub fn elapsed(&mut self, now: i64) -> (r: Result<i64, SimError>)
        ensures
            now < old(self).last_spec() ==> r == Err::<i64, SimError>(SimError::ClockRewound),
            now >= old(self).last_spec() && !fits_i64(now - old(self).last_spec()) ==> r == Err::<
                i64,
                SimError,
            >(SimError::NumericalFault),
            now >= old(self).last_spec() && fits_i64(now - old(self).last_spec()) ==> r == Ok::<
                i64,
                SimError,
            >((now - old(self).last_spec()) as i64) && final(self).last_spec() == now,
            r is Err ==> *final(self) == *old(self),
    {
        if now < self.last {
            return Err(SimError::ClockRewound);
        }
        let gap: i128 = (now as i128) - (self.last as i128);
        if gap > i64::MAX as i128 {
            return Err(SimError::NumericalFault);
        }
        self.last = now;
        Ok(gap as i64)
    }
}

/// The time step of a tick as the driving loop supplied it: a negative
/// one is refused.
pub fn supplied_dt(dt: i64) -> (r: Result<i64, SimError>)
    ensures
        dt < 0 ==> r == Err::<i64, SimError>(SimError::InvalidTimeDelta),
        dt >= 0 ==> r == Ok::<i64, SimError>(dt),
{
    if dt < 0 {
        Err(SimError::InvalidTimeDelta)
    } else {
        Ok(dt)
    }
}

/// The two ways of sourcing a tick's time step, chosen at construction.
#[derive(Clone, Copy, Debug, PartialEq, Eq, Structural)]
pub enum TimeSource {
    /// Measured from the readings of a monotonic clock.
    WallClock(WallClock),
    /// Handed over by the driving loop, which computed it itself.
    External,
}

impl TimeSource {
    /// The step that `next_dt` hands out for `reading`.
    pub open spec fn dt_for(self, reading: int) -> Result<i64, SimError> {
        match self {
            TimeSource::WallClock(c) => {
                if reading < c.last_spec() {
                    Err(SimError::ClockRewound)
                } else if !fits_i64(reading - c.last_spec()) {
                    Err(SimError::NumericalFault)
                } else {
                    Ok((reading - c.last_spec()) as i64)
                }
            },
            TimeSource::External => {
                if reading < 0 {
                    Err(SimError::InvalidTimeDelta)
                } else {
                    Ok(reading as i64)
                }
            },
        }
    }

    /// The next time step. `reading` is the clock's current instant for a
    /// wall-clock source, and the supplied step for an external one. A
    /// wall-clock source remembers the reading of each step it hands out;
    /// a refused reading leaves the source as it was.
    pub fn next_dt(&mut self, reading: i64) -> (r: Result<i64, SimError>)
        ensures
            r == old(self).dt_for(reading as int),
            r is Err || *old(self) is External ==> *final(self) == *old(self),
            r is Ok && *old(self) is WallClock ==> (*final(self) matches TimeSource::WallClock(d)
                && d.last_spec() == reading),
    {
        match self {
            TimeSource::WallClock(c) => c.elapsed(reading),
            TimeSource::External => supplied_dt(reading),
        }
    }
}

} // verus!
