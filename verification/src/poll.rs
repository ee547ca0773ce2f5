//! The poller of one target: a state machine that decides, after each thing
//! the caller observed, what to do next.
//!
//! The caller owns the clock and the network. It starts with
//! [`Poller::pending`], performs the action it is given, reports what
//! happened with [`Poller::step`], and goes on until the action is
//! [`PollAction::Finish`]. Targets named by an `http` or `https` URL are
//! polled like any other: the target counts as reached when a TCP connection
//! to its address succeeds.

use crate::address::SocketAddress;
use crate::budget::TimeBudget;
use vstd::prelude::*;

verus! {

/// The pause between two attempts on one target, in milliseconds.
pub const DEFAULT_INTERVAL: u64 = 500;

/// The longest that a single connection attempt may take, in milliseconds.
pub const DEFAULT_CONNECTION_TIMEOUT: u64 = 1000;

/// The shortest time that is reported for a target that was reached, in
/// milliseconds.
pub const MIN_REPORTED_MILLIS: u64 = 100;

/// Why one connection attempt failed. A failed attempt is never final by
/// itself: the poller tries again while its budget lasts.
#[derive(Debug, Clone, Copy, PartialEq, Eq, Hash, Structural)]
pub enum ConnectError {
    /// The peer refused the connection.
    Refused,
    /// The connection was reset.
    Reset,
    /// The host or its network cannot be reached.
    Unreachable,
    /// The attempt took longer than the time allowed for one attempt.
    AttemptTimedOut,
    /// Any other failure of the transport.
    Other,
}

/// The two intervals that shape the polling of one target.
#[derive(Debug, Clone, Copy, PartialEq, Eq, Hash, Structural)]
pub struct PollConfig {
    /// The pause between two attempts, in milliseconds.
    pub interval_millis: u64,
    /// The longest that a single attempt may take, in milliseconds.
    pub attempt_timeout_millis: u64,
}

impl PollConfig {
    /// The configuration that is used unless another is given.
    pub open spec fn spec_default() -> PollConfig {
        PollConfig {
            interval_millis: DEFAULT_INTERVAL,
            attempt_timeout_millis: DEFAULT_CONNECTION_TIMEOUT,
        }
    }
}

impl Default for PollConfig {
    fn default() -> (config: PollConfig)
        ensures
            config == PollConfig::spec_default(),
    {
        PollConfig {
            interval_millis: DEFAULT_INTERVAL,
            attempt_timeout_millis: DEFAULT_CONNECTION_TIMEOUT,
        }
    }
}

/// How the polling of one target ended.
#[derive(Debug, Clone, Copy, PartialEq, Eq, Hash, Structural)]
pub enum PollOutcome {
    /// A connection succeeded, this long after the poll began and before the
    /// budget was spent.
    Reached { elapsed_millis: u64 },
    /// The budget was spent before any connection succeeded. `last_error` is
    /// the failure of the last attempt, if there was an attempt.
    TimedOut { last_error: Option<ConnectError> },
}

impl PollOutcome {
    /// Whether the target was reached.
    pub open spec fn spec_is_reached(&self) -> bool {
        *self is Reached
    }

    /// Whether the target was reached.
    #[verifier::when_used_as_spec(spec_is_reached)]
    pub fn is_reached(&self) -> (reached: bool)
        ensures
            reached == self.spec_is_reached(),
    {
        match self {
            PollOutcome::Reached { .. } => true,
            PollOutcome::TimedOut { .. } => false,
        }
    }

    /// The time to show for a target that was reached: the elapsed time, but
    /// at least [`MIN_REPORTED_MILLIS`]. Nothing for a target that timed out.
    pub open spec fn spec_reported_millis(&self) -> Option<u64> {
        match *self {
            PollOutcome::Reached { elapsed_millis } => Some(
                if elapsed_millis < MIN_REPORTED_MILLIS {
                    MIN_REPORTED_MILLIS
                } else {
                    elapsed_millis
                },
            ),
            PollOutcome::TimedOut { .. } => None,
        }
    }

    /// The time to show for a target that was reached: the elapsed time, but
    /// at least [`MIN_REPORTED_MILLIS`]. Nothing for a target that timed out.
    /// This is for display only and decides nothing.
    #[verifier::when_used_as_spec(spec_reported_millis)]
    pub fn reported_millis(&self) -> (shown: Option<u64>)
        ensures
            shown == self.spec_reported_millis(),
    {
        match self {
            PollOutcome::Reached { elapsed_millis } => {
                if *elapsed_millis < MIN_REPORTED_MILLIS {
                    Some(MIN_REPORTED_MILLIS)
                } else {
                    Some(*elapsed_millis)
                }
            },
            PollOutcome::TimedOut { .. } => None,
        }
    }
}

/// What the caller reports of a poll that has ended: the outcome that the
/// poller gave and, for a poll that timed out after a failed attempt, the
/// text in which the transport described the last failure.
#[derive(Debug, Clone, PartialEq, Eq)]
pub struct PollReport {
    pub outcome: PollOutcome,
    pub message: Option<String>,
}

/// Where the polling of one target stands.
#[derive(Debug, Clone, Copy, PartialEq, Eq, Hash, Structural)]
pub enum PollState {
    /// Not started yet.
    Idle,
    /// A connection attempt is under way. `last_error` is the failure of the
    /// attempt before it, if there was one.
    Attempting { last_error: Option<ConnectError> },
    /// The last attempt failed with `failure` while budget was left; the
    /// poller pauses before it tries again.
    Waiting { failure: ConnectError },
    /// Final: a connection succeeded before the budget was spent.
    Reached { elapsed_millis: u64 },
    /// Final: the budget was spent before any connection succeeded.
    TimedOut { last_error: Option<ConnectError> },
}

/// What the caller observed. Every time is in milliseconds since the poll
/// began, read when the thing happened.
#[derive(Debug, Clone, Copy, PartialEq, Eq, Hash, Structural)]
pub enum PollEvent {
    /// The poll began: the clock stands at zero.
    Started,
    /// The connection attempt succeeded, at this time.
    Connected { elapsed_millis: u64 },
    /// The connection attempt failed.
    Failed { elapsed_millis: u64, error: ConnectError },
    /// The pause between two attempts is over.
    Woke { elapsed_millis: u64 },
}

impl PollEvent {
    /// The time at which the event happened.
    pub open spec fn elapsed(self) -> u64 {
        match self {
            PollEvent::Started => 0,
            PollEvent::Connected { elapsed_millis } => elapsed_millis,
            PollEvent::Failed { elapsed_millis, .. } => elapsed_millis,
            PollEvent::Woke { elapsed_millis } => elapsed_millis,
        }
    }
}

/// What the caller is to do next.
#[derive(Debug, Clone, Copy, PartialEq, Eq, Hash, Structural)]
pub enum PollAction {
    /// Start the clock and report [`PollEvent::Started`].
    Begin,
    /// Try to connect to `address`, giving up after `timeout_millis`; close
    /// the connection at once if it succeeds. Report
    /// [`PollEvent::Connected`] or [`PollEvent::Failed`].
    Connect { address: SocketAddress, timeout_millis: u64 },
    /// Pause for `millis`, then report [`PollEvent::Woke`].
    Sleep { millis: u64 },
    /// Nothing more: the poll has ended with `outcome`.
    Finish { outcome: PollOutcome },
}

/// The poller of one target. It shares nothing with the pollers of other
/// targets: what it does next depends on its own state and on the event it
/// is given, and on nothing else.
#[derive(Debug, Clone, Copy, PartialEq, Eq, Hash, Structural)]
pub struct Poller {
    /// The address to connect to.
    pub address: SocketAddress,
    /// The time allowed until the target must have answered.
    pub budget: TimeBudget,
    /// The pause between attempts and the time allowed for one attempt.
    pub config: PollConfig,
    /// Where the poll stands.
    pub state: PollState,
}

impl Poller {
    /// A poller that has not started.
    pub open spec fn spec_new(
        address: SocketAddress,
        budget: TimeBudget,
        config: PollConfig,
    ) -> Poller {
        Poller { address, budget, config, state: PollState::Idle }
    }

    /// A poller that has not started.
    #[verifier::when_used_as_spec(spec_new)]
    pub fn new(address: SocketAddress, budget: TimeBudget, config: PollConfig) -> (poller: Poller)
        ensures
            poller == Self::spec_new(address, budget, config),
    {
        Poller { address, budget, config, state: PollState::Idle }
    }

    /// This poller in another state.
    pub open spec fn with_state(self, state: PollState) -> Poller {
        Poller { state, ..self }
    }

    /// The state on the way to the next attempt, when the clock shows
    /// `elapsed_millis` and the last attempt, if there was one, failed with
    /// `last_error`: timed out if the budget is spent, attempting otherwise.
    pub open spec fn before_attempt(
        self,
        elapsed_millis: u64,
        last_error: Option<ConnectError>,
    ) -> PollState {
        if self.budget.exhausted_at(elapsed_millis) {
            PollState::TimedOut { last_error }
        } else {
            PollState::Attempting { last_error }
        }
    }

    /// The poller after `event`.
    ///
    /// Whatever the event, a poll whose budget is spent by the time of the
    /// event times out: the limit holds whether or not an attempt was under
    /// way when it was reached.
    ///
    /// - Before each attempt, at the start and after each pause, the budget
    ///   is checked: if it is spent the poll times out without another
    ///   attempt.
    /// - An attempt that succeeds while budget is left ends the poll: the
    ///   target is reached. One that succeeds only when the budget is spent
    ///   comes too late: the poll times out, with the failure of the
    ///   attempt before it.
    /// - An attempt that fails ends the poll if the budget is spent by then;
    ///   otherwise the poller pauses.
    /// - An event that the state does not wait for changes nothing. This
    ///   holds of every event in a final state.
    pub open spec fn next(self, event: PollEvent) -> Poller {
        match (self.state, event) {
            (PollState::Idle, PollEvent::Started) => self.with_state(self.before_attempt(0, None)),
            (PollState::Attempting { last_error }, PollEvent::Connected { elapsed_millis }) => {
                if self.budget.exhausted_at(elapsed_millis) {
                    self.with_state(PollState::TimedOut { last_error })
                } else {
                    self.with_state(PollState::Reached { elapsed_millis })
                }
            },
            (PollState::Attempting { .. }, PollEvent::Failed { elapsed_millis, error }) => {
                if self.budget.exhausted_at(elapsed_millis) {
                    self.with_state(PollState::TimedOut { last_error: Some(error) })
                } else {
                    self.with_state(PollState::Waiting { failure: error })
                }
            },
            (PollState::Waiting { failure }, PollEvent::Woke { elapsed_millis }) => {
                self.with_state(self.before_attempt(elapsed_millis, Some(failure)))
            },
            _ => self,
        }
    }

    /// The poller after a run of events, first to last.
    pub open spec fn after(self, events: Seq<PollEvent>) -> Poller
        decreases events.len(),
    {
        if events.len() == 0 {
            self
        } else {
            self.after(events.drop_last()).next(events.last())
        }
    }

    /// The outcome, once the poll has ended.
    pub open spec fn spec_outcome(&self) -> Option<PollOutcome> {
        match self.state {
            PollState::Reached { elapsed_millis } => Some(PollOutcome::Reached { elapsed_millis }),
            PollState::TimedOut { last_error } => Some(PollOutcome::TimedOut { last_error }),
            _ => None,
        }
    }

    /// The action that the poller waits on in its present state.
    pub open spec fn spec_pending(&self) -> PollAction {
        match self.state {
            PollState::Idle => PollAction::Begin,
            PollState::Attempting { .. } => PollAction::Connect {
                address: self.address,
                timeout_millis: self.config.attempt_timeout_millis,
            },
            PollState::Waiting { .. } => PollAction::Sleep { millis: self.config.interval_millis },
            PollState::Reached { elapsed_millis } => PollAction::Finish {
                outcome: PollOutcome::Reached { elapsed_millis },
            },
            PollState::TimedOut { last_error } => PollAction::Finish {
                outcome: PollOutcome::TimedOut { last_error },
            },
        }
    }

    /// The outcome, once the poll has ended.
    #[verifier::when_used_as_spec(spec_outcome)]
    pub fn outcome(&self) -> (outcome: Option<PollOutcome>)
        ensures
            outcome == self.spec_outcome(),
    {
        match self.state {
            PollState::Reached { elapsed_millis } => Some(PollOutcome::Reached { elapsed_millis }),
            PollState::TimedOut { last_error } => Some(PollOutcome::TimedOut { last_error }),
            _ => None,
        }
    }

    /// The action that the poller waits on in its present state.
    #[verifier::when_used_as_spec(spec_pending)]
    pub fn pending(&self) -> (action: PollAction)
        ensures
            action == self.spec_pending(),
    {
        match self.state {
            PollState::Idle => PollAction::Begin,
            PollState::Attempting { .. } => PollAction::Connect {
                address: self.address,
                timeout_millis: self.config.attempt_timeout_millis,
            },
            PollState::Waiting { .. } => PollAction::Sleep { millis: self.config.interval_millis },
            PollState::Reached { elapsed_millis } => PollAction::Finish {
                outcome: PollOutcome::Reached { elapsed_millis },
            },
            PollState::TimedOut { last_error } => PollAction::Finish {
                outcome: PollOutcome::TimedOut { last_error },
            },
        }
    }

    /// The state on the way to the next attempt: see
    /// [`Poller::before_attempt`].
    fn check_budget(&self, elapsed_millis: u64, last_error: Option<ConnectError>) -> (state:
        PollState)
        ensures
            state == self.before_attempt(elapsed_millis, last_error),
    {
        if self.budget.is_exhausted(elapsed_millis) {
            PollState::TimedOut { last_error }
        } else {
            PollState::Attempting { last_error }
        }
    }

    /// Takes in what the caller observed and says what to do next: the
    /// poller moves to the state that [`Poller::next`] gives, and the action
    /// returned is the one that the new state waits on.
    pub fn step(&mut self, event: PollEvent) -> (action: PollAction)
        ensures
            *final(self) == old(self).next(event),
            action == final(self).spec_pending(),
    {
        match self.state {
            PollState::Idle => {
                match event {
                    PollEvent::Started => {
                        self.state = self.check_budget(0, None);
                    },
                    _ => {},
                }
            },
            PollState::Attempting { last_error } => {
                match event {
                    PollEvent::Connected { elapsed_millis } => {
                        if self.budget.is_exhausted(elapsed_millis) {
                            self.state = PollState::TimedOut { last_error };
                        } else {
                            self.state = PollState::Reached { elapsed_millis };
                        }
                    },
                    PollEvent::Failed { elapsed_millis, error } => {
                        if self.budget.is_exhausted(elapsed_millis) {
                            self.state = PollState::TimedOut { last_error: Some(error) };
                        } else {
                            self.state = PollState::Waiting { failure: error };
                        }
                    },
                    _ => {},
                }
            },
            PollState::Waiting { failure } => {
                match event {
                    PollEvent::Woke { elapsed_millis } => {
                        self.state = self.check_budget(elapsed_millis, Some(failure));
                    },
                    _ => {},
                }
            },
            _ => {},
        }
        self.pending()
    }

    /// Takes in a run of events, first to last, as by [`Poller::step`] on
    /// each, and says what to do after the last.
    pub fn replay(&mut self, events: &Vec<PollEvent>) -> (action: PollAction)
        ensures
            *final(self) == old(self).after(events@),
            action == final(self).spec_pending(),
    {
        let mut i: usize = 0;
        while i < events.len()
            invariant
                i <= events.len(),
                *self == old(self).after(events@.take(i as int)),
            decreases events.len() - i,
        {
            proof {
                assert(events@.take(i + 1).drop_last() == events@.take(i as int));
            }
            let _ = self.step(events[i]);
            i = i + 1;
        }
        proof {
            assert(events@.take(i as int) == events@);
        }
        self.pending()
    }
}

} // verus!
