//! The shutdown signal: a single boolean that starts as "running" and
//! can only move to "stopped", never back.
//!
//! The real program shares one such flag between the cancellation
//! trigger (the sole writer) and every actor (readers only). This type
//! captures its semantics: the transition is monotone, so setting it a
//! second time changes nothing.

use vstd::prelude::*;

verus! {

/// The shared stop flag, as one actor or the coordinator sees it.
pub struct ShutdownSignal {
    stopped: bool,
}

/// The state a signal is in after its setter has run: stopped, whatever
/// it was before.
pub closed spec fn signaled(s: ShutdownSignal) -> ShutdownSignal {
    ShutdownSignal { stopped: true }
}

impl ShutdownSignal {
    /// Whether the signal has been set to "stopped".
    pub closed spec fn spec_stopped(self) -> bool {
        self.stopped
    }

    /// A fresh signal reads "running".
    pub fn new() -> (s: ShutdownSignal)
        ensures
            !s.spec_stopped(),
    {
        ShutdownSignal { stopped: false }
    }

    /// The single setter: after it, the signal reads "stopped",
    /// regardless of the state before the call.
    pub fn signal(&mut self)
        ensures
            *final(self) == signaled(*old(self)),
            final(self).spec_stopped(),
    {
        self.stopped = true;
    }

    /// Reads the flag without changing it.
    pub fn is_stopped(&self) -> (r: bool)
        ensures
            r == self.spec_stopped(),
    {
        self.stopped
    }
}

/// Idempotence of the setter: signaling an already-signaled flag has the
/// same effect as signaling it once, and the transition is monotone --
/// a stopped signal stays stopped.
pub proof fn lemma_signal_idempotent(s: ShutdownSignal)
    ensures
        signaled(signaled(s)) == signaled(s),
        signaled(s).spec_stopped(),
        s.spec_stopped() ==> signaled(s) == s,
{
}

} // verus!
