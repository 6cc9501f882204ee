//! Live-update engine of a terminal dashboard for a WireGuard interface:
//! the friendly-name cache, the status merge, the bounded capture tail,
//! the capture session's state machine, the poller schedule and the
//! registry of the capture subprocess.
pub mod cache;
pub mod capture;
pub mod peers;
pub mod poll;
pub mod registry;
pub mod status;
pub mod tail;
pub mod text;
