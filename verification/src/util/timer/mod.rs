//! Timers.
use vstd::prelude::*;

pub mod hpet;
pub mod rtc;

verus! {

/// A reading of a timer's counter.
pub struct TimerTicks(pub u64);

impl TimerTicks {
    pub fn new(ticks: u64) -> (r: Self)
        ensures
            r.0 == ticks,
    {
        Self(ticks)
    }
}

} // verus!
