//! Run-level failures of the coordinator and its actors.

use vstd::prelude::*;

verus! {

/// The ways a run can fail.
///
/// `InvalidConfiguration` is rejected at startup, before any actor runs.
/// `SignalRegistrationFailure` means the external cancellation trigger
/// could not be installed, also fatal at startup. `PoisonedResource`
/// means an exclusive-access primitive was found corrupted, so the
/// mutual-exclusion invariant can no longer be trusted; the run must
/// fail rather than report partial statistics as complete.
#[derive(Clone, Copy, Debug, PartialEq, Eq, Structural)]
pub enum RunError {
    PoisonedResource,
    SignalRegistrationFailure,
    InvalidConfiguration,
}

} // verus!
