//! The pollers' schedule: status and statistics refreshed in turn, each
//! followed by a pause, until a stop is asked for.
use vstd::prelude::*;

verus! {

/// The pause after each refresh, in milliseconds.
pub const POLL_PAUSE_MS: u64 = 500;

/// What the poller does next.
#[derive(Clone, Copy, Debug, PartialEq, Eq, Structural)]
pub enum PollStep {
    /// Refresh the status panel, then pause.
    RefreshStatus,
    /// Refresh the statistics panel, then pause.
    RefreshStats,
    /// Stop polling for good.
    Stop,
}

/// Whether the status is next, and whether polling has stopped.
pub type PollModel = (bool, bool);

pub open spec fn poll_step(m: PollModel, stop_requested: bool) -> (PollModel, PollStep) {
    if m.1 || stop_requested {
        ((m.0, true), PollStep::Stop)
    } else if m.0 {
        ((false, false), PollStep::RefreshStatus)
    } else {
        ((true, false), PollStep::RefreshStats)
    }
}

pub struct Poller {
    status_next: bool,
    stopped: bool,
}

impl View for Poller {
    type V = PollModel;

    closed spec fn view(&self) -> PollModel {
        (self.status_next, self.stopped)
    }
}

impl Poller {
    /// A poller that refreshes the status first.
    pub fn new() -> (r: Poller)
        ensures
            r@ == (true, false),
    {
        Poller { status_next: true, stopped: false }
    }

    /// The next step; once a stop was asked for, every step is `Stop`.
    pub fn next_step(&mut self, stop_requested: bool) -> (r: PollStep)
        ensures
            (final(self)@, r) == poll_step(old(self)@, stop_requested),
    {
        if self.stopped || stop_requested {
            self.stopped = true;
            PollStep::Stop
        } else if self.status_next {
            self.status_next = false;
            PollStep::RefreshStatus
        } else {
            self.status_next = true;
            PollStep::RefreshStats
        }
    }
}

} // verus!
