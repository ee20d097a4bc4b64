//! The stop signal: one boolean that the orchestrator writes and every worker reads.

use vstd::prelude::*;

verus! {

/// A run's stop signal. It reads active until the first stop request and
/// again after the next activation.
#[derive(Clone, Copy, Debug, PartialEq, Eq, Structural)]
pub struct StopSignal {
    active: bool,
}

impl StopSignal {
    /// Whether workers observing this signal may go on.
    pub closed spec fn active(self) -> bool {
        self.active
    }

    /// The signal after an activation.
    pub open spec fn activated(self) -> StopSignal {
        StopSignal::with_state(true)
    }

    /// The signal after a stop request.
    pub open spec fn stopped(self) -> StopSignal {
        StopSignal::with_state(false)
    }

    /// The signal that reads `active`.
    pub closed spec fn with_state(active: bool) -> StopSignal {
        StopSignal { active }
    }

    /// A fresh signal. It reads active until the first stop request.
    pub fn new() -> (signal: StopSignal)
        ensures
            signal == StopSignal::with_state(true),
    {
        StopSignal { active: true }
    }

    /// Sets the signal: workers spawned from now on may run.
    pub fn activate(&mut self)
        ensures
            *final(self) == old(self).activated(),
    {
        self.active = true;
    }

    /// Clears the signal. A second request leaves it cleared.
    pub fn request_stop(&mut self)
        ensures
            *final(self) == old(self).stopped(),
    {
        self.active = false;
    }

    /// Reads the signal.
    pub fn is_active(&self) -> (active: bool)
        ensures
            active == self.active(),
    {
        self.active
    }

    /// A signal is determined by what it reads.
    pub broadcast proof fn lemma_with_state(active: bool)
        ensures
            #[trigger] StopSignal::with_state(active).active() == active,
    {
    }

    /// Requesting a stop twice has the effect of requesting it once, whatever
    /// the signal read before.
    pub proof fn lemma_request_stop_idempotent(signal: StopSignal)
        ensures
            signal.stopped().stopped() == signal.stopped(),
            !signal.stopped().active(),
    {
    }

    /// An activation undoes any earlier stop request, and a stop request
    /// undoes any earlier activation.
    pub proof fn lemma_last_write_wins(signal: StopSignal)
        ensures
            signal.stopped().activated().active(),
            !signal.activated().stopped().active(),
    {
    }
}

} // verus!
