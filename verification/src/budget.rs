//! The time that a target is given to become reachable.

use vstd::prelude::*;

verus! {

/// How long one target may be polled before it counts as unreachable.
///
/// The budget is fixed when the wait begins and never changes. Every poller
/// measures the time it has spent against the same budget, from its own
/// start.
#[derive(Debug, Clone, Copy, PartialEq, Eq, Hash, Structural)]
pub enum TimeBudget {
    /// No limit: polling goes on until the target answers.
    Unbounded,
    /// Polling stops once this many seconds have passed.
    Bounded { seconds: u64 },
}

impl TimeBudget {
    /// The budget that a timeout in seconds stands for: zero means no limit.
    pub open spec fn spec_from_seconds(timeout_seconds: u64) -> TimeBudget {
        if timeout_seconds == 0 {
            TimeBudget::Unbounded
        } else {
            TimeBudget::Bounded { seconds: timeout_seconds }
        }
    }

    /// The budget that a timeout in seconds stands for: zero means no limit.
    #[verifier::when_used_as_spec(spec_from_seconds)]
    pub fn from_seconds(timeout_seconds: u64) -> (budget: TimeBudget)
        ensures
            budget == Self::spec_from_seconds(timeout_seconds),
    {
        if timeout_seconds == 0 {
            TimeBudget::Unbounded
        } else {
            TimeBudget::Bounded { seconds: timeout_seconds }
        }
    }

    /// Whether the budget is spent once `elapsed_millis` milliseconds have
    /// passed: the elapsed time has reached or passed the limit.
    pub open spec fn exhausted_at(self, elapsed_millis: u64) -> bool {
        match self {
            TimeBudget::Unbounded => false,
            TimeBudget::Bounded { seconds } => elapsed_millis >= seconds * 1000,
        }
    }

    /// Whether the budget is spent once `elapsed_millis` milliseconds have
    /// passed.
    pub fn is_exhausted(&self, elapsed_millis: u64) -> (spent: bool)
        ensures
            spent == self.exhausted_at(elapsed_millis),
    {
        match self {
            TimeBudget::Unbounded => false,
            TimeBudget::Bounded { seconds } => elapsed_millis / 1000 >= *seconds,
        }
    }
}

/// A budget made from a timeout of zero seconds is never spent, and one made
/// from any other timeout is spent exactly from that many seconds on.
pub proof fn lemma_budget_from_seconds(timeout_seconds: u64, elapsed_millis: u64)
    ensures
        timeout_seconds == 0 ==> !TimeBudget::from_seconds(timeout_seconds).exhausted_at(
            elapsed_millis,
        ),
        timeout_seconds > 0 ==> (TimeBudget::from_seconds(timeout_seconds).exhausted_at(
            elapsed_millis,
        ) <==> elapsed_millis >= timeout_seconds * 1000),
        !TimeBudget::from_seconds(timeout_seconds).exhausted_at(0),
{
}

} // verus!
