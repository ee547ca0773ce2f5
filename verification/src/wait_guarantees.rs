//! What holds of a whole wait, proved from the definitions in
//! [`crate::wait`] and from what holds of each poller.

use crate::address::{IpAddress, SocketAddress};
use crate::budget::{lemma_budget_from_seconds, TimeBudget};
use crate::errors::WaitServiceError;
use crate::poll::{PollEvent, PollOutcome, Poller};
use crate::poll_guarantees::{
    lemma_connects_after_retries, lemma_reached_only_by_connecting, retry_events,
    sees_connection, within_budget, Retry,
};
use crate::resolve::{
    named_endpoint, resolution, spec_host_port, starts_with_digit, EndpointView,
};
use crate::wait::{
    entry_at, labels, latest_reached, lookups, no_messages, reached_at, reached_time,
    resolve_all, spec_new, spec_outcomes, spec_pollers, spec_run, spec_wait_result,
    unreached_entry, unreached_targets, ResolvedTargetView, UnreachedTargetView, WaitResultView,
    WaitServiceView,
};
use vstd::prelude::*;

verus! {

/// Whether every target of `targets` resolves under `answers`.
pub open spec fn all_resolve(targets: Seq<Seq<char>>, answers: Seq<Seq<IpAddress>>) -> bool {
    forall|i: int|
        0 <= i < targets.len() ==> resolution(#[trigger] targets[i], entry_at(answers, i)) is Ok
}

/// The targets before the last are the same targets in the list without the
/// last.
proof fn lemma_front_holds_the_same_targets(targets: Seq<Seq<char>>)
    requires
        targets.len() > 0,
    ensures
        forall|i: int|
            0 <= i < targets.len() - 1 ==> targets.drop_last()[i] == #[trigger] targets[i],
        forall|i: int|
            0 <= i < targets.len() - 1 ==> #[trigger] targets.drop_last()[i] == targets[i],
{
}

/// Resolving a list of targets gives one resolved target for each target, in
/// the same order and under the same label, exactly when every target
/// resolves.
pub proof fn lemma_resolve_all_ok(targets: Seq<Seq<char>>, answers: Seq<Seq<IpAddress>>)
    ensures
        resolve_all(targets, answers) is Ok <==> all_resolve(targets, answers),
        resolve_all(targets, answers) matches Ok(resolved) ==> resolved.len() == targets.len()
            && forall|i: int|
            0 <= i < targets.len() ==> (#[trigger] resolved[i]).label == targets[i] && Ok::<
                SocketAddress,
                WaitServiceError,
            >(resolved[i].address) == resolution(targets[i], entry_at(answers, i)),
    decreases targets.len(),
{
    if targets.len() > 0 {
        let front = targets.drop_last();
        lemma_resolve_all_ok(front, answers);
        lemma_front_holds_the_same_targets(targets);
        if all_resolve(targets, answers) {
            assert(all_resolve(front, answers));
            assert(resolution(targets[targets.len() - 1], entry_at(answers, targets.len() - 1))
                is Ok);
        }
    }
}

/// Whether target `k` is the first that fails to resolve, and fails with
/// `error`.
pub open spec fn first_failure_at(
    targets: Seq<Seq<char>>,
    answers: Seq<Seq<IpAddress>>,
    k: int,
    error: WaitServiceError,
) -> bool {
    &&& 0 <= k < targets.len()
    &&& resolution(targets[k], entry_at(answers, k)) == Err::<SocketAddress, WaitServiceError>(
        error,
    )
    &&& forall|j: int|
        0 <= j < k ==> resolution(#[trigger] targets[j], entry_at(answers, j)) is Ok
}

/// Resolving a list of targets fails exactly when some target fails to
/// resolve, and the error is that of the first such target.
pub proof fn lemma_resolve_all_fails_fast(
    targets: Seq<Seq<char>>,
    answers: Seq<Seq<IpAddress>>,
    error: WaitServiceError,
)
    ensures
        resolve_all(targets, answers) == Err::<Seq<ResolvedTargetView>, WaitServiceError>(error)
            <==> exists|k: int| first_failure_at(targets, answers, k, error),
    decreases targets.len(),
{
    if targets.len() > 0 {
        let front = targets.drop_last();
        let last = targets.len() - 1;
        lemma_resolve_all_fails_fast(front, answers, error);
        lemma_resolve_all_ok(front, answers);
        lemma_front_holds_the_same_targets(targets);
        if resolve_all(targets, answers) == Err::<Seq<ResolvedTargetView>, WaitServiceError>(
            error,
        ) {
            if resolve_all(front, answers) is Err {
                let k = choose|k: int| first_failure_at(front, answers, k, error);
                assert(first_failure_at(targets, answers, k, error));
            } else {
                assert(first_failure_at(targets, answers, last, error));
            }
        }
        if exists|k: int| first_failure_at(targets, answers, k, error) {
            let k = choose|k: int| first_failure_at(targets, answers, k, error);
            if k < last {
                assert(first_failure_at(front, answers, k, error));
            } else {
                assert(all_resolve(front, answers));
            }
        }
    }
}

/// What is to be looked up are the endpoints of the leading targets: each of
/// them names the endpoint at its place, and the target after them, if there
/// is one, names none.
pub proof fn lemma_lookups_are_the_leading_endpoints(targets: Seq<Seq<char>>)
    ensures
        lookups(targets).len() <= targets.len(),
        forall|i: int|
            0 <= i < lookups(targets).len() ==> named_endpoint(#[trigger] targets[i]) == Ok::<
                EndpointView,
                WaitServiceError,
            >(lookups(targets)[i]),
        lookups(targets).len() < targets.len() ==> named_endpoint(
            targets[lookups(targets).len() as int],
        ) is Err,
    decreases targets.len(),
{
    if targets.len() > 0 {
        lemma_lookups_are_the_leading_endpoints(targets.drop_last());
        lemma_front_holds_the_same_targets(targets);
    }
}

/// The lookups are all that resolving reads of the answers: two lists of
/// answers that agree on what was to be looked up resolve the targets alike.
/// So a caller that looks up no more than it was asked to gets the result
/// that any further lookup would give.
pub proof fn lemma_lookups_are_all_that_resolving_reads(
    targets: Seq<Seq<char>>,
    first: Seq<Seq<IpAddress>>,
    second: Seq<Seq<IpAddress>>,
)
    requires
        forall|i: int|
            0 <= i < lookups(targets).len() ==> entry_at(first, i) == entry_at(second, i),
    ensures
        resolve_all(targets, first) == resolve_all(targets, second),
    decreases targets.len(),
{
    if targets.len() > 0 {
        let front = targets.drop_last();
        let last = targets.len() - 1;
        lemma_lookups_are_the_leading_endpoints(targets);
        lemma_lookups_are_the_leading_endpoints(front);
        lemma_front_holds_the_same_targets(targets);
        lemma_lookups_are_all_that_resolving_reads(front, first, second);
        lemma_resolve_all_ok(front, first);
        if resolve_all(front, first) is Ok && named_endpoint(targets[last]) is Ok {
            // Every target names an endpoint, so the answer for the last
            // target is among those that agree.
            if lookups(front).len() < front.len() {
                let k = lookups(front).len() as int;
                assert(resolution(front[k], entry_at(first, k)) is Ok);
            }
            assert(lookups(targets).len() == targets.len());
            assert(entry_at(first, last) == entry_at(second, last));
        }
    }
}

/// The events of a poller that starts, goes through `retries` and then sees
/// an attempt succeed at `connected_at`.
pub open spec fn reaching_trace(retries: Seq<Retry>, connected_at: u64) -> Seq<PollEvent> {
    retry_events(retries).push(PollEvent::Connected { elapsed_millis: connected_at })
}

/// The list of unreached targets is no longer than the list of targets, and
/// it is empty exactly when every target was reached.
pub proof fn lemma_unreached_is_empty_iff_all_reached(
    labels: Seq<Seq<char>>,
    outcomes: Seq<Option<PollOutcome>>,
    messages: Seq<Option<Seq<char>>>,
)
    ensures
        unreached_targets(labels, outcomes, messages).len() <= labels.len(),
        unreached_targets(labels, outcomes, messages).len() == 0 <==> forall|i: int|
            0 <= i < labels.len() ==> reached_at(outcomes, i),
    decreases labels.len(),
{
    if labels.len() > 0 {
        lemma_unreached_is_empty_iff_all_reached(labels.drop_last(), outcomes, messages);
    }
}

/// A wait succeeds exactly when every target was reached.
pub proof fn lemma_success_iff_all_reached(
    labels: Seq<Seq<char>>,
    outcomes: Seq<Option<PollOutcome>>,
    messages: Seq<Option<Seq<char>>>,
)
    ensures
        spec_wait_result(labels, outcomes, messages) is Success <==> forall|i: int|
            0 <= i < labels.len() ==> reached_at(outcomes, i),
{
    lemma_unreached_is_empty_iff_all_reached(labels, outcomes, messages);
}

/// The time that a successful wait reports is the time at which the last
/// target was reached: none of the first `count` targets was reached later,
/// and one of them was reached at exactly that time.
pub proof fn lemma_latest_reached_is_the_greatest(outcomes: Seq<Option<PollOutcome>>, count: int)
    ensures
        forall|i: int|
            0 <= i < count ==> #[trigger] reached_time(outcomes, i) <= latest_reached(
                outcomes,
                count,
            ),
        count > 0 ==> exists|i: int|
            0 <= i < count && #[trigger] reached_time(outcomes, i) == latest_reached(
                outcomes,
                count,
            ),
        count <= 0 ==> latest_reached(outcomes, count) == 0,
    decreases count,
{
    if count > 0 {
        lemma_latest_reached_is_the_greatest(outcomes, count - 1);
        if reached_time(outcomes, count - 1) >= latest_reached(outcomes, count - 1) {
            assert(reached_time(outcomes, count - 1) == latest_reached(outcomes, count));
        } else {
            let i = choose|i: int|
                0 <= i < count - 1 && #[trigger] reached_time(outcomes, i) == latest_reached(
                    outcomes,
                    count - 1,
                );
            assert(reached_time(outcomes, i) == latest_reached(outcomes, count));
        }
    }
}

/// Whether `entry` stands for a target that was not reached: it holds the
/// label of that target, the failure of the last attempt on it and the
/// message reported for that failure.
pub open spec fn is_unreached_target(
    labels: Seq<Seq<char>>,
    outcomes: Seq<Option<PollOutcome>>,
    messages: Seq<Option<Seq<char>>>,
    entry: UnreachedTargetView,
) -> bool {
    exists|i: int|
        0 <= i < labels.len() && !reached_at(outcomes, i) && #[trigger] unreached_entry(
            labels,
            outcomes,
            messages,
            i,
        ) == entry
}

/// The list of unreached targets holds an entry for every target that was
/// not reached, and holds nothing else.
pub proof fn lemma_unreached_names_exactly_the_unreached(
    labels: Seq<Seq<char>>,
    outcomes: Seq<Option<PollOutcome>>,
    messages: Seq<Option<Seq<char>>>,
    entry: UnreachedTargetView,
)
    ensures
        unreached_targets(labels, outcomes, messages).contains(entry) <==> is_unreached_target(
            labels,
            outcomes,
            messages,
            entry,
        ),
    decreases labels.len(),
{
    if labels.len() > 0 {
        let front = labels.drop_last();
        let last = labels.len() - 1;
        let listed = unreached_targets(labels, outcomes, messages);
        let before = unreached_targets(front, outcomes, messages);
        lemma_unreached_names_exactly_the_unreached(front, outcomes, messages, entry);
        if listed.contains(entry) {
            // It was listed before, for one of the targets before the last,
            // or it is listed for the last target.
            let j = choose|j: int| 0 <= j < listed.len() && listed[j] == entry;
            if j < before.len() {
                assert(before.contains(entry));
                let i = choose|i: int|
                    0 <= i < front.len() && !reached_at(outcomes, i) && #[trigger] unreached_entry(
                        front,
                        outcomes,
                        messages,
                        i,
                    ) == entry;
                assert(unreached_entry(labels, outcomes, messages, i) == entry);
            } else {
                assert(unreached_entry(labels, outcomes, messages, last) == entry);
            }
        }
        if is_unreached_target(labels, outcomes, messages, entry) {
            let i = choose|i: int|
                0 <= i < labels.len() && !reached_at(outcomes, i) && #[trigger] unreached_entry(
                    labels,
                    outcomes,
                    messages,
                    i,
                ) == entry;
            if i < last {
                assert(unreached_entry(front, outcomes, messages, i) == entry);
                let j = choose|j: int| 0 <= j < before.len() && before[j] == entry;
                assert(listed[j] == entry);
            } else {
                assert(listed[listed.len() - 1] == entry);
            }
        }
    }
}

/// A wait that is ready has one target for each string that was given, under
/// that string as its label, and at least one.
pub proof fn lemma_ready_wait_has_every_target(
    urls: Seq<Seq<char>>,
    timeout_seconds: u64,
    answers: Seq<Seq<IpAddress>>,
)
    ensures
        spec_new(urls, timeout_seconds, answers) is Ok <==> urls.len() > 0 && all_resolve(
            urls,
            answers,
        ),
        spec_new(urls, timeout_seconds, answers) matches Ok(service) ==> labels(service.targets)
            == urls && service.targets.len() > 0 && service.budget == TimeBudget::from_seconds(
            timeout_seconds,
        ),
        urls.len() == 0 ==> spec_new(urls, timeout_seconds, answers) == Err::<
            WaitServiceView,
            WaitServiceError,
        >(WaitServiceError::UrlsEmpty),
{
    lemma_resolve_all_ok(urls, answers);
    if let Ok(service) = spec_new(urls, timeout_seconds, answers) {
        assert(labels(service.targets) == urls);
    }
}

/// Whether `time` is the greatest of `times`: none is greater, and one is
/// equal.
pub open spec fn is_greatest_of(time: u64, times: Seq<u64>) -> bool {
    &&& forall|i: int| 0 <= i < times.len() ==> #[trigger] times[i] <= time
    &&& exists|i: int| 0 <= i < times.len() && #[trigger] times[i] == time
}

/// Whether the budget covers each of `times`.
pub open spec fn all_within_budget(budget: TimeBudget, times: Seq<u64>) -> bool {
    forall|i: int| 0 <= i < times.len() ==> !budget.exhausted_at(#[trigger] times[i])
}

/// Every target that answers within its budget is reached, and a wait whose
/// targets all do so succeeds: target `i` fails and pauses as `retries[i]`
/// says and then connects at `connected_at[i]`, all within the budget. The
/// wait reports the time at which the last target connected.
pub proof fn lemma_reachable_targets_succeed(
    urls: Seq<Seq<char>>,
    timeout_seconds: u64,
    answers: Seq<Seq<IpAddress>>,
    retries: Seq<Seq<Retry>>,
    connected_at: Seq<u64>,
)
    requires
        urls.len() > 0,
        all_resolve(urls, answers),
        retries.len() == urls.len(),
        connected_at.len() == urls.len(),
        forall|i: int|
            0 <= i < urls.len() ==> within_budget(
                TimeBudget::from_seconds(timeout_seconds),
                #[trigger] retries[i],
            ),
        all_within_budget(TimeBudget::from_seconds(timeout_seconds), connected_at),
    ensures
        spec_run(
            urls,
            timeout_seconds,
            answers,
            Seq::new(urls.len(), |i: int| reaching_trace(retries[i], connected_at[i])),
        ) matches Ok(WaitResultView::Success { elapsed_millis }) && is_greatest_of(
            elapsed_millis,
            connected_at,
        ),
{
    let traces = Seq::new(urls.len(), |i: int| reaching_trace(retries[i], connected_at[i]));
    lemma_ready_wait_has_every_target(urls, timeout_seconds, answers);
    let service = spec_new(urls, timeout_seconds, answers)->Ok_0;
    let outcomes = spec_outcomes(service, traces);
    lemma_budget_from_seconds(timeout_seconds, 0);
    // Every target is reached, at the time at which its poller connects.
    assert forall|i: int| 0 <= i < urls.len() implies #[trigger] outcomes[i] == Some(
        PollOutcome::Reached { elapsed_millis: connected_at[i] },
    ) by {
        let poller = spec_pollers(service)[i];
        assert(entry_at(traces, i) == reaching_trace(retries[i], connected_at[i]));
        assert(within_budget(poller.budget, retries[i]));
        assert(!poller.budget.exhausted_at(connected_at[i]));
        lemma_connects_after_retries(poller, retries[i], connected_at[i]);
    }
    assert forall|i: int| 0 <= i < urls.len() implies reached_at(outcomes, i)
        && #[trigger] reached_time(outcomes, i) == connected_at[i] by {
        assert(outcomes[i] is Some);
    }
    lemma_success_iff_all_reached(
        labels(service.targets),
        outcomes,
        no_messages(service.targets.len()),
    );
    // So the time reported is the greatest of those times.
    lemma_latest_reached_is_the_greatest(outcomes, urls.len() as int);
    let latest = latest_reached(outcomes, urls.len() as int);
    let last = choose|i: int|
        0 <= i < urls.len() && #[trigger] reached_time(outcomes, i) == latest;
    assert(connected_at[last] == latest);
    assert forall|i: int| 0 <= i < connected_at.len() implies #[trigger] connected_at[i]
        <= latest by {
        assert(reached_time(outcomes, i) == connected_at[i]);
    }
}

/// Targets that answer the first attempt, within the budget, make the wait
/// succeed.
pub proof fn lemma_targets_reachable_at_once_succeed(
    urls: Seq<Seq<char>>,
    timeout_seconds: u64,
    answers: Seq<Seq<IpAddress>>,
    connected_at: Seq<u64>,
)
    requires
        urls.len() > 0,
        all_resolve(urls, answers),
        connected_at.len() == urls.len(),
        all_within_budget(TimeBudget::from_seconds(timeout_seconds), connected_at),
    ensures
        spec_run(
            urls,
            timeout_seconds,
            answers,
            Seq::new(
                urls.len(),
                |i: int|
                    seq![
                        PollEvent::Started,
                        PollEvent::Connected { elapsed_millis: connected_at[i] },
                    ],
            ),
        ) matches Ok(WaitResultView::Success { elapsed_millis }) && is_greatest_of(
            elapsed_millis,
            connected_at,
        ),
{
    let retries = Seq::new(urls.len(), |i: int| Seq::<Retry>::empty());
    lemma_reachable_targets_succeed(urls, timeout_seconds, answers, retries, connected_at);
    let direct = Seq::new(
        urls.len(),
        |i: int|
            seq![PollEvent::Started, PollEvent::Connected { elapsed_millis: connected_at[i] }],
    );
    let through = Seq::new(urls.len(), |i: int| reaching_trace(retries[i], connected_at[i]));
    assert forall|i: int| 0 <= i < urls.len() implies direct[i] == through[i] by {
        assert(retry_events(Seq::<Retry>::empty()) == seq![PollEvent::Started]);
        assert(seq![PollEvent::Started].push(
            PollEvent::Connected { elapsed_millis: connected_at[i] },
        ) == seq![PollEvent::Started, PollEvent::Connected { elapsed_millis: connected_at[i] }]);
    }
    assert(direct == through);
}

/// Whether every target of `targets` starts with a digit and reads as a bare
/// `host:port` pair, as `127.0.0.1:4000` does, and the lookup of each gave
/// an address.
pub open spec fn all_numeric_and_found(
    targets: Seq<Seq<char>>,
    answers: Seq<Seq<IpAddress>>,
) -> bool {
    forall|i: int|
        0 <= i < targets.len() ==> starts_with_digit(#[trigger] targets[i]) && spec_host_port(
            targets[i],
        ) is Ok && entry_at(answers, i).len() > 0
}

/// Targets that start with a digit resolve without regard to the URL parser:
/// each to the first address that its lookup gave, at the port it writes.
pub proof fn lemma_numeric_targets_resolve(targets: Seq<Seq<char>>, answers: Seq<Seq<IpAddress>>)
    requires
        all_numeric_and_found(targets, answers),
    ensures
        all_resolve(targets, answers),
        forall|i: int|
            0 <= i < targets.len() ==> resolution(#[trigger] targets[i], entry_at(answers, i))
                == Ok::<SocketAddress, WaitServiceError>(
                SocketAddress {
                    ip: entry_at(answers, i)[0],
                    port: spec_host_port(targets[i])->Ok_0.port,
                },
            ),
{
}

/// A wait for targets such as `127.0.0.1:4000` succeeds if each of them
/// answers the first attempt within the budget: nothing in this rests on
/// what the URL parser makes of a text.
pub proof fn lemma_numeric_targets_reachable_at_once_succeed(
    urls: Seq<Seq<char>>,
    timeout_seconds: u64,
    answers: Seq<Seq<IpAddress>>,
    connected_at: Seq<u64>,
)
    requires
        urls.len() > 0,
        all_numeric_and_found(urls, answers),
        connected_at.len() == urls.len(),
        all_within_budget(TimeBudget::from_seconds(timeout_seconds), connected_at),
    ensures
        spec_run(
            urls,
            timeout_seconds,
            answers,
            Seq::new(
                urls.len(),
                |i: int|
                    seq![
                        PollEvent::Started,
                        PollEvent::Connected { elapsed_millis: connected_at[i] },
                    ],
            ),
        ) matches Ok(WaitResultView::Success { elapsed_millis }) && is_greatest_of(
            elapsed_millis,
            connected_at,
        ),
{
    lemma_numeric_targets_resolve(urls, answers);
    lemma_targets_reachable_at_once_succeed(urls, timeout_seconds, answers, connected_at);
}

/// A timeout of zero puts no limit on the wait: targets that answer after
/// any number of failed attempts, however late, make the wait succeed.
pub proof fn lemma_zero_timeout_waits_without_limit(
    urls: Seq<Seq<char>>,
    answers: Seq<Seq<IpAddress>>,
    retries: Seq<Seq<Retry>>,
    connected_at: Seq<u64>,
)
    requires
        urls.len() > 0,
        all_resolve(urls, answers),
        retries.len() == urls.len(),
        connected_at.len() == urls.len(),
    ensures
        spec_run(
            urls,
            0,
            answers,
            Seq::new(urls.len(), |i: int| reaching_trace(retries[i], connected_at[i])),
        ) matches Ok(WaitResultView::Success { elapsed_millis }) && is_greatest_of(
            elapsed_millis,
            connected_at,
        ),
{
    lemma_reachable_targets_succeed(urls, 0, answers, retries, connected_at);
}

/// A wait never succeeds without connecting: if the result is success, the
/// poller of every target saw an attempt succeed.
pub proof fn lemma_success_needs_every_connection(
    urls: Seq<Seq<char>>,
    timeout_seconds: u64,
    answers: Seq<Seq<IpAddress>>,
    traces: Seq<Seq<PollEvent>>,
    i: int,
)
    requires
        spec_run(urls, timeout_seconds, answers, traces) matches Ok(result) && result is Success,
        0 <= i < urls.len(),
    ensures
        sees_connection(entry_at(traces, i)),
{
    lemma_ready_wait_has_every_target(urls, timeout_seconds, answers);
    let service = spec_new(urls, timeout_seconds, answers)->Ok_0;
    let outcomes = spec_outcomes(service, traces);
    lemma_success_iff_all_reached(urls, outcomes, no_messages(urls.len()));
    assert(reached_at(outcomes, i));
    let poller = spec_pollers(service)[i];
    lemma_reached_only_by_connecting(poller, entry_at(traces, i));
}

/// A target that never answers fails the wait and is named in the result:
/// if the poller of target `k` sees no attempt succeed, the wait ends in
/// failure, and its list of unreached targets holds the string of target `k`
/// with the failure of the last attempt on it.
pub proof fn lemma_unreachable_target_fails_the_wait(
    urls: Seq<Seq<char>>,
    timeout_seconds: u64,
    answers: Seq<Seq<IpAddress>>,
    traces: Seq<Seq<PollEvent>>,
    k: int,
)
    requires
        urls.len() > 0,
        all_resolve(urls, answers),
        0 <= k < urls.len(),
        !sees_connection(entry_at(traces, k)),
    ensures
        spec_run(urls, timeout_seconds, answers, traces) matches Ok(
            WaitResultView::Failure { unreached },
        ) && unreached.contains(
            unreached_entry(
                urls,
                spec_outcomes(spec_new(urls, timeout_seconds, answers)->Ok_0, traces),
                no_messages(urls.len()),
                k,
            ),
        ),
{
    lemma_ready_wait_has_every_target(urls, timeout_seconds, answers);
    let service = spec_new(urls, timeout_seconds, answers)->Ok_0;
    let outcomes = spec_outcomes(service, traces);
    let poller = spec_pollers(service)[k];
    lemma_reached_only_by_connecting(poller, entry_at(traces, k));
    assert(!reached_at(outcomes, k));
    let messages = no_messages(urls.len());
    lemma_unreached_names_exactly_the_unreached(
        urls,
        outcomes,
        messages,
        unreached_entry(urls, outcomes, messages, k),
    );
    lemma_success_iff_all_reached(urls, outcomes, no_messages(urls.len()));
}

/// The targets do not affect each other: the outcome of a target depends on
/// the events of its own poller only, and so does its place among the
/// reached or the unreached. What the pollers of the other targets observe,
/// and whether they reach their targets, changes neither.
pub proof fn lemma_targets_are_independent(
    service: WaitServiceView,
    first: Seq<Seq<PollEvent>>,
    second: Seq<Seq<PollEvent>>,
    i: int,
)
    requires
        0 <= i < service.targets.len(),
        entry_at(first, i) == entry_at(second, i),
    ensures
        spec_outcomes(service, first)[i] == spec_outcomes(service, second)[i],
        spec_outcomes(service, first)[i] == Poller::new(
            service.targets[i].address,
            service.budget,
            service.config,
        ).after(entry_at(first, i)).spec_outcome(),
        reached_at(spec_outcomes(service, first), i) == reached_at(
            spec_outcomes(service, second),
            i,
        ),
{
}

/// A target that can be reached is reached on its own schedule: if its
/// poller connects at some time that its budget covers, after retries, the
/// outcome of that target is that it was reached at that time, whatever the
/// pollers of the other targets observe, and whether or not they ever reach
/// theirs.
pub proof fn lemma_reachable_target_keeps_its_schedule(
    service: WaitServiceView,
    traces: Seq<Seq<PollEvent>>,
    i: int,
    retries: Seq<Retry>,
    connected_at: u64,
)
    requires
        0 <= i < service.targets.len(),
        within_budget(service.budget, retries),
        !service.budget.exhausted_at(connected_at),
        entry_at(traces, i) == reaching_trace(retries, connected_at),
    ensures
        spec_outcomes(service, traces)[i] == Some(
            PollOutcome::Reached { elapsed_millis: connected_at },
        ),
        reached_at(spec_outcomes(service, traces), i),
{
    lemma_connects_after_retries(spec_pollers(service)[i], retries, connected_at);
}

/// Resolving comes before polling and fails fast: if any target fails to
/// resolve, the wait fails with an error of resolution whatever the pollers
/// would have observed.
pub proof fn lemma_unresolved_target_stops_the_wait(
    urls: Seq<Seq<char>>,
    timeout_seconds: u64,
    answers: Seq<Seq<IpAddress>>,
    first: Seq<Seq<PollEvent>>,
    second: Seq<Seq<PollEvent>>,
)
    requires
        urls.len() > 0,
        !all_resolve(urls, answers),
    ensures
        spec_run(urls, timeout_seconds, answers, first) is Err,
        spec_run(urls, timeout_seconds, answers, first) == spec_run(
            urls,
            timeout_seconds,
            answers,
            second,
        ),
        spec_run(urls, timeout_seconds, answers, first)->Err_0 != WaitServiceError::UrlsEmpty,
{
    lemma_resolve_all_ok(urls, answers);
    lemma_resolve_all_is_never_a_configuration_error(urls, answers);
}

/// An error of resolving is never the error of an empty list of targets.
pub proof fn lemma_resolve_all_is_never_a_configuration_error(
    targets: Seq<Seq<char>>,
    answers: Seq<Seq<IpAddress>>,
)
    ensures
        resolve_all(targets, answers) matches Err(error) ==> error != WaitServiceError::UrlsEmpty,
    decreases targets.len(),
{
    if targets.len() > 0 {
        lemma_resolve_all_is_never_a_configuration_error(targets.drop_last(), answers);
    }
}

} // verus!
