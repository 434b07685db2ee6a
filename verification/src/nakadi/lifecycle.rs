//! The cooperative run / abort / stopped signal of a component.

use vstd::prelude::*;

verus! {

/// What an observer of a [`Lifecycle`] can tell.
#[derive(Clone, Copy, Debug, PartialEq, Eq, Structural)]
pub enum Phase {
    /// The component works and nobody has asked it to end.
    Running,
    /// Somebody asked the component to end; it has not finished yet.
    AbortRequested,
    /// The component has finished.
    Stopped,
}

impl Phase {
    /// Position of the phase on the one-way road `Running`, `AbortRequested`,
    /// `Stopped`.
    pub open spec fn rank(self) -> nat {
        match self {
            Phase::Running => 0,
            Phase::AbortRequested => 1,
            Phase::Stopped => 2,
        }
    }
}

/// The signal itself: whether an abort was requested and whether the
/// component has stopped. Both flags only ever go from `false` to `true`.
#[derive(Clone, Copy, Debug, PartialEq, Eq, Structural)]
pub struct Lifecycle {
    pub abort_requested: bool,
    pub stopped: bool,
}

impl Lifecycle {
    /// The phase that the two flags stand for.
    pub open spec fn spec_phase(self) -> Phase {
        if self.stopped {
            Phase::Stopped
        } else if self.abort_requested {
            Phase::AbortRequested
        } else {
            Phase::Running
        }
    }

    /// The signal after an abort request.
    pub open spec fn after_request_abort(self) -> Lifecycle {
        Lifecycle { abort_requested: true, stopped: self.stopped }
    }

    /// The signal after the component reported that it has stopped.
    pub open spec fn after_stopped(self) -> Lifecycle {
        Lifecycle { abort_requested: self.abort_requested, stopped: true }
    }

    /// The phase of the signal.
    pub fn phase(&self) -> (p: Phase)
        ensures
            p == self.spec_phase(),
    {
        if self.stopped {
            Phase::Stopped
        } else if self.abort_requested {
            Phase::AbortRequested
        } else {
            Phase::Running
        }
    }

    /// `true` until the component has stopped; an abort request alone does
    /// not end it.
    pub fn running(&self) -> (r: bool)
        ensures
            r == !self.stopped,
            r == (self.spec_phase() != Phase::Stopped),
    {
        !self.stopped
    }

    /// `true` once an abort was requested.
    pub fn abort_requested(&self) -> (r: bool)
        ensures
            r == self.abort_requested,
    {
        self.abort_requested
    }

    /// Asks the component to end. Any holder may do this, any number of
    /// times.
    pub fn request_abort(&mut self)
        ensures
            *final(self) == old(self).after_request_abort(),
    {
        self.abort_requested = true;
    }

    /// Records that the component has finished. Only the component itself
    /// does this.
    pub fn stopped(&mut self)
        ensures
            *final(self) == old(self).after_stopped(),
    {
        self.stopped = true;
    }
}

impl Default for Lifecycle {
    /// A fresh signal: running, no abort requested.
    fn default() -> (l: Lifecycle)
        ensures
            l == (Lifecycle { abort_requested: false, stopped: false }),
            l.spec_phase() == Phase::Running,
    {
        Lifecycle { abort_requested: false, stopped: false }
    }
}

/// Requesting an abort a second time changes nothing.
pub proof fn lemma_request_abort_idempotent(l: Lifecycle)
    ensures
        l.after_request_abort().after_request_abort() == l.after_request_abort(),
{
}

/// Reporting the stop a second time changes nothing, and a stopped signal
/// stays stopped whatever is requested afterwards.
pub proof fn lemma_stopped_is_terminal(l: Lifecycle)
    ensures
        l.after_stopped().after_stopped() == l.after_stopped(),
        l.after_stopped().spec_phase() == Phase::Stopped,
        l.after_stopped().after_request_abort().spec_phase() == Phase::Stopped,
{
}

/// No transition moves the phase backwards.
pub proof fn lemma_phase_monotonic(l: Lifecycle)
    ensures
        l.spec_phase().rank() <= l.after_request_abort().spec_phase().rank(),
        l.spec_phase().rank() <= l.after_stopped().spec_phase().rank(),
        l.spec_phase() == Phase::Running ==> l.after_request_abort().spec_phase()
            == Phase::AbortRequested,
{
}

} // verus!
