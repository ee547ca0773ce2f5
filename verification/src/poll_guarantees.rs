//! What holds of the poller of one target, proved from its definition in
//! [`crate::poll`].

use crate::budget::TimeBudget;
use crate::poll::{ConnectError, PollAction, PollEvent, PollOutcome, PollState, Poller};
use vstd::prelude::*;

verus! {

/// One failed attempt and the pause after it: when the attempt failed, why,
/// and when the pause was over.
pub struct Retry {
    pub failed_at: u64,
    pub error: ConnectError,
    pub woke_at: u64,
}

/// The events of a poll that starts and then goes through `retries`, one
/// failed attempt and one pause each.
pub open spec fn retry_events(retries: Seq<Retry>) -> Seq<PollEvent>
    decreases retries.len(),
{
    if retries.len() == 0 {
        seq![PollEvent::Started]
    } else {
        retry_events(retries.drop_last()).push(
            PollEvent::Failed {
                elapsed_millis: retries.last().failed_at,
                error: retries.last().error,
            },
        ).push(PollEvent::Woke { elapsed_millis: retries.last().woke_at })
    }
}

/// Whether the budget covers every failed attempt and every pause of
/// `retries`.
pub open spec fn within_budget(budget: TimeBudget, retries: Seq<Retry>) -> bool {
    forall|i: int|
        0 <= i < retries.len() ==> !budget.exhausted_at((#[trigger] retries[i]).failed_at)
            && !budget.exhausted_at(retries[i].woke_at)
}

/// Whether an attempt succeeds among `events`.
pub open spec fn sees_connection(events: Seq<PollEvent>) -> bool {
    exists|i: int| 0 <= i < events.len() && #[trigger] events[i] is Connected
}

/// A final state absorbs: once a poll has ended, no event changes the poller
/// or its outcome.
pub proof fn lemma_final_state_absorbs(poller: Poller, events: Seq<PollEvent>)
    requires
        poller.spec_outcome() is Some,
    ensures
        poller.after(events) == poller,
    decreases events.len(),
{
    if events.len() > 0 {
        lemma_final_state_absorbs(poller, events.drop_last());
    }
}

/// A target is never reported as reached without a connection, nor after
/// the limit: a poller that ends as reached was given the event of a
/// successful attempt, the time it reports is the time of that event, and
/// the budget was not spent by then.
pub proof fn lemma_reached_only_by_connecting(poller: Poller, events: Seq<PollEvent>)
    requires
        !(poller.state is Reached),
    ensures
        poller.after(events).state matches PollState::Reached { elapsed_millis } ==> exists|
            i: int,
        |
            0 <= i < events.len() && #[trigger] events[i] == (PollEvent::Connected {
                elapsed_millis,
            }),
        poller.after(events).state matches PollState::Reached { elapsed_millis }
            ==> !poller.budget.exhausted_at(elapsed_millis),
        poller.after(events).state is Reached ==> sees_connection(events),
    decreases events.len(),
{
    if events.len() > 0 {
        let front = events.drop_last();
        lemma_reached_only_by_connecting(poller, front);
        lemma_after_keeps_the_setup(poller, front);
        if let PollState::Reached { elapsed_millis } = poller.after(events).state {
            if poller.after(front).state is Reached {
                let i = choose|i: int|
                    0 <= i < front.len() && #[trigger] front[i] == (PollEvent::Connected {
                        elapsed_millis,
                    });
                assert(events[i] == front[i]);
            } else {
                assert(events[events.len() - 1] == events.last());
            }
        }
    }
}

/// A poll does not time out before its budget is spent: while every event
/// comes at a time that the budget still covers, the poller is not timed out.
pub proof fn lemma_no_timeout_before_budget(poller: Poller, events: Seq<PollEvent>)
    requires
        !(poller.state is TimedOut),
        forall|i: int|
            0 <= i < events.len() ==> !poller.budget.exhausted_at((#[trigger] events[i]).elapsed()),
    ensures
        !(poller.after(events).state is TimedOut),
        poller.after(events).budget == poller.budget,
    decreases events.len(),
{
    if events.len() > 0 {
        let front = events.drop_last();
        assert forall|i: int| 0 <= i < front.len() implies !poller.budget.exhausted_at(
            (#[trigger] front[i]).elapsed(),
        ) by {
            assert(front[i] == events[i]);
        }
        lemma_no_timeout_before_budget(poller, front);
    }
}

/// A poll without limit never times out, whatever happens and however late.
pub proof fn lemma_unbounded_never_times_out(poller: Poller, events: Seq<PollEvent>)
    requires
        poller.budget is Unbounded,
        !(poller.state is TimedOut),
    ensures
        !(poller.after(events).state is TimedOut),
{
    lemma_no_timeout_before_budget(poller, events);
}

/// A poll times out as soon as the poller learns that the budget is spent:
/// at the start, after a pause, and after an attempt, whether the attempt
/// failed or succeeded too late.
pub proof fn lemma_times_out_once_budget_is_spent(poller: Poller, event: PollEvent)
    requires
        poller.budget.exhausted_at(event.elapsed()),
        awaited(poller, event),
    ensures
        poller.next(event).state is TimedOut,
{
}

/// The failure of the last of `retries`, if there is one.
pub open spec fn last_failure(retries: Seq<Retry>) -> Option<ConnectError> {
    if retries.len() == 0 {
        None
    } else {
        Some(retries.last().error)
    }
}

/// While the events come at times that the budget covers, a poller that
/// starts and then fails and pauses any number of times is attempting again
/// after the last pause.
pub proof fn lemma_retries_keep_attempting(poller: Poller, retries: Seq<Retry>)
    requires
        poller.state is Idle,
        !poller.budget.exhausted_at(0),
        within_budget(poller.budget, retries),
    ensures
        poller.after(retry_events(retries)) == poller.with_state(
            PollState::Attempting { last_error: last_failure(retries) },
        ),
    decreases retries.len(),
{
    if retries.len() == 0 {
        assert(poller.after(retry_events(retries).drop_last()) == poller);
    } else {
        let front = retries.drop_last();
        let last = retries.last();
        assert(within_budget(poller.budget, front)) by {
            assert forall|i: int| 0 <= i < front.len() implies #[trigger] front[i]
                == retries[i] by {}
        }
        lemma_retries_keep_attempting(poller, front);
        let failed = retry_events(front).push(
            PollEvent::Failed { elapsed_millis: last.failed_at, error: last.error },
        );
        assert(failed.drop_last() == retry_events(front));
        assert(poller.after(failed) == poller.with_state(
            PollState::Waiting { failure: last.error },
        ));
        let woke = failed.push(PollEvent::Woke { elapsed_millis: last.woke_at });
        assert(woke.drop_last() == failed);
    }
}

/// A target that answers the first attempt within the budget is reached,
/// and the time reported is the time at which that attempt succeeded.
pub proof fn lemma_first_attempt_reaches(poller: Poller, elapsed_millis: u64)
    requires
        poller.state is Idle,
        !poller.budget.exhausted_at(elapsed_millis),
    ensures
        poller.after(
            seq![PollEvent::Started, PollEvent::Connected { elapsed_millis }],
        ).spec_outcome() == Some(PollOutcome::Reached { elapsed_millis }),
{
    lemma_connects_after_retries(poller, Seq::<Retry>::empty(), elapsed_millis);
    assert(retry_events(Seq::<Retry>::empty()).push(PollEvent::Connected { elapsed_millis })
        == seq![PollEvent::Started, PollEvent::Connected { elapsed_millis }]);
}

/// A target that answers after any number of failed attempts is reached, as
/// long as the budget covers those attempts, the pauses between them and the
/// attempt that succeeds.
pub proof fn lemma_connects_after_retries(poller: Poller, retries: Seq<Retry>, elapsed_millis: u64)
    requires
        poller.state is Idle,
        !poller.budget.exhausted_at(0),
        within_budget(poller.budget, retries),
        !poller.budget.exhausted_at(elapsed_millis),
    ensures
        poller.after(
            retry_events(retries).push(PollEvent::Connected { elapsed_millis }),
        ).spec_outcome() == Some(PollOutcome::Reached { elapsed_millis }),
{
    lemma_retries_keep_attempting(poller, retries);
    let events = retry_events(retries).push(PollEvent::Connected { elapsed_millis });
    assert(events.drop_last() == retry_events(retries));
}

/// A success that comes after the limit does not count: if the attempt that
/// succeeds ends only when the budget is spent, the poll times out, with the
/// failure of the attempt before it.
pub proof fn lemma_late_success_times_out(poller: Poller, retries: Seq<Retry>, elapsed_millis: u64)
    requires
        poller.state is Idle,
        !poller.budget.exhausted_at(0),
        within_budget(poller.budget, retries),
        poller.budget.exhausted_at(elapsed_millis),
    ensures
        poller.after(
            retry_events(retries).push(PollEvent::Connected { elapsed_millis }),
        ).spec_outcome() == Some(PollOutcome::TimedOut { last_error: last_failure(retries) }),
{
    lemma_retries_keep_attempting(poller, retries);
    let events = retry_events(retries).push(PollEvent::Connected { elapsed_millis });
    assert(events.drop_last() == retry_events(retries));
}

/// With no limit on the time, a target that answers after any number of
/// failed attempts is reached, however long that took.
pub proof fn lemma_unbounded_wait_reaches(poller: Poller, retries: Seq<Retry>, elapsed_millis: u64)
    requires
        poller.state is Idle,
        poller.budget is Unbounded,
    ensures
        poller.after(
            retry_events(retries).push(PollEvent::Connected { elapsed_millis }),
        ).spec_outcome() == Some(PollOutcome::Reached { elapsed_millis }),
{
    lemma_connects_after_retries(poller, retries, elapsed_millis);
}

/// The longest that an action takes when the caller keeps time.
pub open spec fn duration_of(action: PollAction) -> int {
    match action {
        PollAction::Connect { timeout_millis, .. } => timeout_millis as int,
        PollAction::Sleep { millis } => millis as int,
        _ => 0,
    }
}

/// Whether `event` is the report that `poller` waits for.
pub open spec fn awaited(poller: Poller, event: PollEvent) -> bool {
    match (poller.state, event) {
        (PollState::Idle, PollEvent::Started) => true,
        (PollState::Attempting { .. }, PollEvent::Connected { .. }) => true,
        (PollState::Attempting { .. }, PollEvent::Failed { .. }) => true,
        (PollState::Waiting { .. }, PollEvent::Woke { .. }) => true,
        _ => false,
    }
}

/// Whether event `k` of `events` comes as it should, for a poller that began
/// as `poller`: it is the report that the poller waits for by then, it does
/// not come before the event before it, and it comes no later after that
/// event than the action it reports on may take.
pub open spec fn punctual_at(poller: Poller, events: Seq<PollEvent>, k: int) -> bool {
    let by_then = poller.after(events.take(k));
    let since: int = if k == 0 {
        0
    } else {
        events[k - 1].elapsed() as int
    };
    &&& awaited(by_then, events[k])
    &&& since <= events[k].elapsed() <= since + duration_of(by_then.spec_pending())
}

/// Whether the caller kept to the protocol and kept time all through
/// `events`: see [`punctual_at`].
pub open spec fn punctual(poller: Poller, events: Seq<PollEvent>) -> bool {
    forall|k: int| 0 <= k < events.len() ==> punctual_at(poller, events, k)
}

/// A poll that times out does so neither early nor late. The event at which
/// it times out comes when the budget is spent, not before. And if the
/// caller kept to the protocol and kept time, that event comes no more than
/// one pause or one attempt after the limit, whichever is the longer.
pub proof fn lemma_times_out_on_time(poller: Poller, events: Seq<PollEvent>, seconds: u64)
    requires
        poller.state is Idle,
        poller.budget == (TimeBudget::Bounded { seconds }),
        punctual(poller, events),
        poller.after(events).state is TimedOut,
    ensures
        events.len() > 0,
        seconds * 1000 <= events.last().elapsed(),
        events.last().elapsed() <= seconds * 1000 + poller.config.interval_millis
            || events.last().elapsed() <= seconds * 1000 + poller.config.attempt_timeout_millis,
        events.last().elapsed() <= seconds * 1000 + poller.config.interval_millis
            + poller.config.attempt_timeout_millis,
{
    let n = events.len() as int;
    if n > 0 {
        // The last event found the budget spent, and it came on time after
        // the event before it, which had found budget left.
        let front = events.drop_last();
        assert(events.take(n - 1) == front);
        assert(punctual_at(poller, events, n - 1));
        lemma_after_keeps_the_setup(poller, front);
        if n >= 2 {
            assert(events.take(n - 2) == front.drop_last());
            assert(punctual_at(poller, events, n - 2));
        }
    }
}

/// No event changes the address, the budget or the configuration of a
/// poller.
pub proof fn lemma_after_keeps_the_setup(poller: Poller, events: Seq<PollEvent>)
    ensures
        poller.after(events).address == poller.address,
        poller.after(events).budget == poller.budget,
        poller.after(events).config == poller.config,
    decreases events.len(),
{
    if events.len() > 0 {
        lemma_after_keeps_the_setup(poller, events.drop_last());
    }
}

} // verus!
