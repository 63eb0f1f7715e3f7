//! The fixed simulated-time increment consumed by one physics sub-step.

use vstd::prelude::*;

verus! {

/// Default length of one fixed step, in nanoseconds (about one sixtieth of a
/// second).
pub const DEFAULT_TIME_STEP_NANOS: u64 = 16_666_667;

/// Length of one fixed physics step.  Time is measured in whole nanoseconds;
/// a valid time step is strictly positive.
#[derive(Clone, Copy, Debug, PartialEq, Eq, Structural)]
pub struct TimeStep {
    /// Duration of one fixed step, in nanoseconds.
    pub nanos: u64,
}

impl TimeStep {
    /// A time step is usable by the stepper only if it is strictly positive.
    pub open spec fn is_valid(self) -> bool {
        self.nanos >= 1
    }

    /// Builds a time step of the given length in nanoseconds.
    pub fn new(nanos: u64) -> (r: Self)
        ensures
            r.nanos == nanos,
    {
        TimeStep { nanos }
    }
}

impl Default for TimeStep {
    /// The default step length is about one sixtieth of a second.
    fn default() -> (r: Self)
        ensures
            r.nanos == DEFAULT_TIME_STEP_NANOS,
            r.is_valid(),
    {
        TimeStep { nanos: DEFAULT_TIME_STEP_NANOS }
    }
}

} // verus!
