//! Waits until a set of network endpoints becomes reachable, or a deadline
//! expires, and reports one overall result.
//!
//! The library holds the decisions: how a target string names an endpoint,
//! how one target is polled until it answers or its time budget is spent, and
//! how the outcomes of all targets combine. Looking up hosts, connecting,
//! sleeping and reading the clock are left to the caller, who reports what
//! happened as plain values.
//!
//! A wait goes through these steps:
//!
//! 1. [`endpoints_to_look_up`] finds the host and the port that each target
//!    names, and the caller looks the hosts up.
//! 2. [`WaitService::new`] resolves every target from the answers, or fails
//!    with the error of the first target that does not resolve.
//! 3. [`WaitService::pollers`] gives one [`Poller`] for each target. The
//!    caller runs them side by side, each on a clock of its own and each to
//!    its end, whatever becomes of the others.
//! 4. [`WaitService::wait_for_services`] makes one [`WaitResult`] of their
//!    reports.
//!
//! [`run`] is the whole of it on a record of what the network did. The
//! modules [`poll_guarantees`] and [`wait_guarantees`] hold what is proved of
//! a poller and of a whole wait.

pub mod address;
pub mod budget;
pub mod errors;
pub mod poll;
pub mod poll_guarantees;
pub mod resolve;
pub mod url_parts;
pub mod wait;
pub mod wait_guarantees;

pub use address::{IpAddress, SocketAddress};
pub use budget::TimeBudget;
pub use errors::WaitServiceError;
pub use poll::{
    ConnectError, PollAction, PollConfig, PollEvent, PollOutcome, PollReport, PollState, Poller,
};
pub use resolve::{parse_target, resolve_address, Endpoint};
pub use wait::{
    endpoints_to_look_up, run, Opt, ResolvedTarget, UnreachedTarget, WaitResult, WaitService,
};
