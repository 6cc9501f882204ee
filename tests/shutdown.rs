use std::cell::Cell;
use wgmon::poll::{PollStep, Poller};
use wgmon::registry::{ProcessRegistry, TerminationOutcome};

#[test]
fn shutdown_with_nothing_registered_is_a_no_op() {
    let reg = ProcessRegistry::new();
    let calls = Cell::new(0);
    let r = reg.request_termination(|_| {
        calls.set(calls.get() + 1);
        true
    });
    assert_eq!(r, TerminationOutcome::NothingRegistered);
    assert_eq!(calls.get(), 0);
}

#[test]
fn shutdown_signals_latest_pid() {
    let mut reg = ProcessRegistry::new();
    reg.save_pid(41);
    reg.save_pid(42);
    assert_eq!(reg.registered(), Some(42));
    let seen = Cell::new(0);
    let r = reg.request_termination(|p| {
        seen.set(p);
        true
    });
    assert_eq!(seen.get(), 42);
    assert_eq!(r, TerminationOutcome::Signalled(42));
}

#[test]
fn failed_delivery_is_benign() {
    let mut reg = ProcessRegistry::new();
    reg.save_pid(7);
    assert_eq!(reg.request_termination(|_| false), TerminationOutcome::AlreadyGone(7));
}

#[test]
fn poller_alternates_until_stopped() {
    let mut p = Poller::new();
    assert_eq!(p.next_step(false), PollStep::RefreshStatus);
    assert_eq!(p.next_step(false), PollStep::RefreshStats);
    assert_eq!(p.next_step(false), PollStep::RefreshStatus);
    assert_eq!(p.next_step(true), PollStep::Stop);
    assert_eq!(p.next_step(false), PollStep::Stop);
}
