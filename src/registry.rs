//! The registry of the capture subprocess, read at shutdown to stop it.
use vstd::prelude::*;

verus! {

/// What a termination request came to.
#[derive(Clone, Copy, Debug, PartialEq, Eq, Structural)]
pub enum TerminationOutcome {
    /// No subprocess was registered; nothing was signalled.
    NothingRegistered,
    /// The registered subprocess was signalled.
    Signalled(i32),
    /// The signal could not be delivered, most likely because the subprocess
    /// had already exited; the request is satisfied all the same.
    AlreadyGone(i32),
}

/// Holds the id of the active capture subprocess, if any.
pub struct ProcessRegistry {
    pid: Option<i32>,
}

impl View for ProcessRegistry {
    type V = Option<i32>;

    closed spec fn view(&self) -> Option<i32> {
        self.pid
    }
}

impl ProcessRegistry {
    pub fn new() -> (r: ProcessRegistry)
        ensures
            r@ is None,
    {
        ProcessRegistry { pid: None }
    }

    /// Records `pid` as the active subprocess, replacing any earlier one.
    pub fn save_pid(&mut self, pid: u32)
        requires
            pid <= i32::MAX,
        ensures
            final(self)@ == Some(pid as i32),
    {
        self.pid = Some(pid as i32);
    }

    /// The recorded subprocess id.
    pub fn registered(&self) -> (r: Option<i32>)
        ensures
            r == self@,
    {
        self.pid
    }

    /// Signals the recorded subprocess through `send`, which reports whether
    /// the signal was delivered; with nothing recorded `send` is not called.
    /// A failed delivery is reported, never raised.
    pub fn request_termination<F: FnOnce(i32) -> bool>(&self, send: F) -> (r: TerminationOutcome)
        requires
            forall|p: i32| send.requires((p,)),
        ensures
            self@ is None ==> r == TerminationOutcome::NothingRegistered,
            self@ is Some ==> exists|delivered: bool|
                send.ensures((self@->0,), delivered) && r == if delivered {
                    TerminationOutcome::Signalled(self@->0)
                } else {
                    TerminationOutcome::AlreadyGone(self@->0)
                },
    {
        match self.pid {
            None => TerminationOutcome::NothingRegistered,
            Some(p) => {
                let delivered = send(p);
                if delivered {
                    TerminationOutcome::Signalled(p)
                } else {
                    TerminationOutcome::AlreadyGone(p)
                }
            },
        }
    }
}

} // verus!
