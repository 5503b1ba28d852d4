//! Run configuration: how many actors, and the inclusive bounds of the
//! random delays drawn for the eating and thinking phases.

use vstd::prelude::*;
use crate::errors::RunError;

verus! {

/// Configuration of one run.
///
/// `actor_count` is both the number of actors and the number of
/// resource slots: the binding graph is a simple cycle, so the two
/// counts are equal by design. The delay ranges are inclusive bounds,
/// in seconds, on the simulated work of each phase.
#[derive(Clone, Copy, Debug, PartialEq, Eq, Structural)]
pub struct Config {
    pub actor_count: usize,
    pub eat_min: u64,
    pub eat_max: u64,
    pub think_min: u64,
    pub think_max: u64,
}

impl Config {
    /// A configuration is valid when at least two actors are asked for
    /// (the two-resource protocol assumes the ring has length at least
    /// two) and both delay ranges are non-empty.
    pub open spec fn valid(self) -> bool {
        &&& self.actor_count >= 2
        &&& self.eat_min <= self.eat_max
        &&& self.think_min <= self.think_max
    }

    /// The design default: five actors, eat delays in [0, 3] seconds,
    /// think delays in [0, 5] seconds.
    pub fn default_config() -> (c: Config)
        ensures
            c.actor_count == 5,
            c.eat_min == 0 && c.eat_max == 3,
            c.think_min == 0 && c.think_max == 5,
            c.valid(),
    {
        Config { actor_count: 5, eat_min: 0, eat_max: 3, think_min: 0, think_max: 5 }
    }

    /// Rejects an invalid configuration before any actor is spawned:
    /// accepted exactly when the configuration is valid, and every
    /// rejection is `InvalidConfiguration`.
    pub fn validate(&self) -> (r: Result<(), RunError>)
        ensures
            r == (if self.valid() {
                Result::<(), RunError>::Ok(())
            } else {
                Result::<(), RunError>::Err(RunError::InvalidConfiguration)
            }),
    {
        if self.actor_count >= 2 && self.eat_min <= self.eat_max && self.think_min
            <= self.think_max {
            Ok(())
        } else {
            Err(RunError::InvalidConfiguration)
        }
    }
}

} // verus!
