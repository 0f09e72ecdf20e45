//! Simulation speed settings.

use vstd::prelude::*;

verus! {

/// How fast simulated time runs relative to wall-clock time.
#[derive(Debug, Clone, Copy, PartialEq, Eq, Structural)]
pub enum TimeScale {
    Regular,
    Fast,
    Superfast,
}

impl TimeScale {
    /// The factor by which the engine clock is multiplied.
    pub open spec fn engine_factor(self) -> int {
        match self {
            TimeScale::Regular => 1,
            TimeScale::Fast => 5,
            TimeScale::Superfast => 10,
        }
    }

    /// Returns the engine time multiplier for this scale.
    pub fn to_engine_time(&self) -> (factor: u32)
        ensures
            factor == self.engine_factor(),
    {
        match self {
            TimeScale::Regular => 1,
            TimeScale::Fast => 5,
            TimeScale::Superfast => 10,
        }
    }
}

} // verus!
