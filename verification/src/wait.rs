//! The wait as a whole: every target is resolved, each resolved target gets a
//! poller of its own, and the outcomes of all pollers make one result.
//!
//! The caller looks up the hosts that [`endpoints_to_look_up`] names, makes
//! the wait ready with [`WaitService::new`], runs the pollers of
//! [`WaitService::pollers`] side by side, each to its end, and hands their
//! reports to [`WaitService::wait_for_services`].

use crate::address::{IpAddress, SocketAddress};
use crate::budget::TimeBudget;
use crate::errors::WaitServiceError;
use crate::poll::{ConnectError, PollConfig, PollEvent, PollOutcome, PollReport, Poller};
use crate::resolve::{
    named_endpoint, parse_target, resolution, resolve_address, Endpoint, EndpointView,
};
use vstd::prelude::*;

verus! {

/// A target that was resolved: the string that named it, kept for reports,
/// and the address it stands for.
#[derive(Debug, Clone, PartialEq, Eq)]
pub struct ResolvedTarget {
    pub label: String,
    pub address: SocketAddress,
}

/// [`ResolvedTarget`] as plain values.
pub struct ResolvedTargetView {
    pub label: Seq<char>,
    pub address: SocketAddress,
}

impl View for ResolvedTarget {
    type V = ResolvedTargetView;

    open spec fn view(&self) -> ResolvedTargetView {
        ResolvedTargetView { label: self.label@, address: self.address }
    }
}

/// A target that was not reached: the string that named it and, if its
/// poller timed out after an attempt, the failure of the last attempt on it
/// and the text in which the transport described that failure.
#[derive(Debug, Clone, PartialEq, Eq)]
pub struct UnreachedTarget {
    pub label: String,
    pub last_error: Option<ConnectError>,
    pub message: Option<String>,
}

/// [`UnreachedTarget`] as plain values.
pub struct UnreachedTargetView {
    pub label: Seq<char>,
    pub last_error: Option<ConnectError>,
    pub message: Option<Seq<char>>,
}

impl View for UnreachedTarget {
    type V = UnreachedTargetView;

    open spec fn view(&self) -> UnreachedTargetView {
        UnreachedTargetView {
            label: self.label@,
            last_error: self.last_error,
            message: text_of(self.message),
        }
    }
}

/// The result of a wait: success if every target was reached, with the time
/// at which the last of them was reached on its poller's clock; else the
/// targets that were not reached, in the order in which they were given.
#[derive(Debug, Clone, PartialEq, Eq)]
pub enum WaitResult {
    Success { elapsed_millis: u64 },
    Failure { unreached: Vec<UnreachedTarget> },
}

/// [`WaitResult`] as plain values.
pub enum WaitResultView {
    Success { elapsed_millis: u64 },
    Failure { unreached: Seq<UnreachedTargetView> },
}

impl View for WaitResult {
    type V = WaitResultView;

    open spec fn view(&self) -> WaitResultView {
        match *self {
            WaitResult::Success { elapsed_millis } => WaitResultView::Success { elapsed_millis },
            WaitResult::Failure { unreached } => WaitResultView::Failure {
                unreached: unreached_views(unreached@),
            },
        }
    }
}

impl WaitResult {
    /// Whether every target was reached.
    pub open spec fn spec_is_success(&self) -> bool {
        *self is Success
    }

    /// Whether every target was reached.
    #[verifier::when_used_as_spec(spec_is_success)]
    pub fn is_success(&self) -> (success: bool)
        ensures
            success == self.spec_is_success(),
    {
        match self {
            WaitResult::Success { .. } => true,
            WaitResult::Failure { .. } => false,
        }
    }
}

/// What a caller asks for: the targets to wait for, and the time allowed in
/// seconds, where zero stands for no limit.
#[derive(Debug, Clone, PartialEq, Eq)]
pub struct Opt {
    pub urls: Vec<String>,
    pub timeout: u64,
}

/// A wait that is ready to begin: at least one target, every target
/// resolved, and one budget and one configuration for all of them.
pub struct WaitService {
    targets: Vec<ResolvedTarget>,
    budget: TimeBudget,
    config: PollConfig,
}

/// [`WaitService`] as plain values.
pub struct WaitServiceView {
    pub targets: Seq<ResolvedTargetView>,
    pub budget: TimeBudget,
    pub config: PollConfig,
}

impl View for WaitService {
    type V = WaitServiceView;

    closed spec fn view(&self) -> WaitServiceView {
        WaitServiceView {
            targets: target_views(self.targets@),
            budget: self.budget,
            config: self.config,
        }
    }
}

/// The texts of a list of strings.
pub open spec fn texts(strings: Seq<String>) -> Seq<Seq<char>> {
    strings.map_values(|s: String| s@)
}

/// The text of a string that may be missing.
pub open spec fn text_of(string: Option<String>) -> Option<Seq<char>> {
    match string {
        Some(string) => Some(string@),
        None => None,
    }
}

/// The outcomes that a list of reports holds.
pub open spec fn reported_outcomes(reports: Seq<Option<PollReport>>) -> Seq<Option<PollOutcome>> {
    reports.map_values(
        |report: Option<PollReport>|
            match report {
                Some(report) => Some(report.outcome),
                None => None,
            },
    )
}

/// The messages that a list of reports holds.
pub open spec fn reported_messages(reports: Seq<Option<PollReport>>) -> Seq<Option<Seq<char>>> {
    reports.map_values(
        |report: Option<PollReport>|
            match report {
                Some(report) => text_of(report.message),
                None => None,
            },
    )
}

/// As many messages as there are targets, each of them missing.
pub open spec fn no_messages(count: nat) -> Seq<Option<Seq<char>>> {
    Seq::new(count, |i: int| None)
}

/// The contents of a list of vectors.
pub open spec fn lists<T>(vectors: Seq<Vec<T>>) -> Seq<Seq<T>> {
    vectors.map_values(|v: Vec<T>| v@)
}

/// A list of resolved targets as plain values.
pub open spec fn target_views(targets: Seq<ResolvedTarget>) -> Seq<ResolvedTargetView> {
    targets.map_values(|t: ResolvedTarget| t@)
}

/// A list of unreached targets as plain values.
pub open spec fn unreached_views(targets: Seq<UnreachedTarget>) -> Seq<UnreachedTargetView> {
    targets.map_values(|t: UnreachedTarget| t@)
}

/// A list of endpoints as plain values.
pub open spec fn endpoint_views(endpoints: Seq<Endpoint>) -> Seq<EndpointView> {
    endpoints.map_values(|e: Endpoint| e@)
}

/// The labels of a list of resolved targets.
pub open spec fn labels(targets: Seq<ResolvedTargetView>) -> Seq<Seq<char>> {
    targets.map_values(|t: ResolvedTargetView| t.label)
}

/// What belongs to target `i` in a list that holds one entry for each
/// target: the entry at `i`, and nothing where the list is too short.
pub open spec fn entry_at<T>(entries: Seq<Seq<T>>, i: int) -> Seq<T> {
    if 0 <= i < entries.len() {
        entries[i]
    } else {
        Seq::empty()
    }
}

/// What is to be looked up before the targets can be resolved: the endpoint
/// of each target, first to last, up to the first target that names none.
/// That target fails the wait, so nothing from it on needs a lookup.
pub open spec fn lookups(targets: Seq<Seq<char>>) -> Seq<EndpointView>
    decreases targets.len(),
{
    if targets.len() == 0 {
        Seq::empty()
    } else {
        let before = lookups(targets.drop_last());
        match named_endpoint(targets.last()) {
            Ok(endpoint) => if before.len() == targets.len() - 1 {
                before.push(endpoint)
            } else {
                before
            },
            Err(_) => before,
        }
    }
}

/// All targets resolved, first to last, where `answers` holds for each target
/// what the lookup of its host gave. The first target that fails to resolve
/// decides the error, and then no target counts as resolved.
pub open spec fn resolve_all(targets: Seq<Seq<char>>, answers: Seq<Seq<IpAddress>>) -> Result<
    Seq<ResolvedTargetView>,
    WaitServiceError,
>
    decreases targets.len(),
{
    if targets.len() == 0 {
        Ok(Seq::empty())
    } else {
        match resolve_all(targets.drop_last(), answers) {
            Err(error) => Err(error),
            Ok(resolved) => match resolution(
                targets.last(),
                entry_at(answers, targets.len() - 1),
            ) {
                Ok(address) => Ok(
                    resolved.push(ResolvedTargetView { label: targets.last(), address }),
                ),
                Err(error) => Err(error),
            },
        }
    }
}

/// The wait that `urls`, a timeout and the answers of the lookups make: an
/// empty list of targets is refused before anything is resolved.
pub open spec fn spec_new(
    urls: Seq<Seq<char>>,
    timeout_seconds: u64,
    answers: Seq<Seq<IpAddress>>,
) -> Result<WaitServiceView, WaitServiceError> {
    if urls.len() == 0 {
        Err(WaitServiceError::UrlsEmpty)
    } else {
        match resolve_all(urls, answers) {
            Ok(targets) => Ok(
                WaitServiceView {
                    targets,
                    budget: TimeBudget::from_seconds(timeout_seconds),
                    config: PollConfig::spec_default(),
                },
            ),
            Err(error) => Err(error),
        }
    }
}

/// Whether target `i` was reached: its poller reported an outcome, and the
/// outcome is that a connection succeeded. A target without an outcome
/// counts as not reached.
pub open spec fn reached_at(outcomes: Seq<Option<PollOutcome>>, i: int) -> bool {
    &&& 0 <= i < outcomes.len()
    &&& outcomes[i] matches Some(outcome)
    &&& outcome is Reached
}

/// The failure of the last attempt on target `i`, if its poller timed out
/// after an attempt.
pub open spec fn last_error_at(outcomes: Seq<Option<PollOutcome>>, i: int) -> Option<
    ConnectError,
> {
    if 0 <= i < outcomes.len() {
        match outcomes[i] {
            Some(PollOutcome::TimedOut { last_error }) => last_error,
            _ => None,
        }
    } else {
        None
    }
}

/// The text that describes the failure of the last attempt on target `i`:
/// the message reported for it, if its poller timed out after an attempt.
pub open spec fn message_at(
    outcomes: Seq<Option<PollOutcome>>,
    messages: Seq<Option<Seq<char>>>,
    i: int,
) -> Option<Seq<char>> {
    if last_error_at(outcomes, i) is Some && 0 <= i < messages.len() {
        messages[i]
    } else {
        None
    }
}

/// The entry that the list of unreached targets holds for target `i`.
pub open spec fn unreached_entry(
    labels: Seq<Seq<char>>,
    outcomes: Seq<Option<PollOutcome>>,
    messages: Seq<Option<Seq<char>>>,
    i: int,
) -> UnreachedTargetView {
    UnreachedTargetView {
        label: labels[i],
        last_error: last_error_at(outcomes, i),
        message: message_at(outcomes, messages, i),
    }
}

/// The targets that were not reached, in the order of the targets, each with
/// the failure of the last attempt on it and the message reported for it.
pub open spec fn unreached_targets(
    labels: Seq<Seq<char>>,
    outcomes: Seq<Option<PollOutcome>>,
    messages: Seq<Option<Seq<char>>>,
) -> Seq<UnreachedTargetView>
    decreases labels.len(),
{
    if labels.len() == 0 {
        Seq::empty()
    } else {
        let before = unreached_targets(labels.drop_last(), outcomes, messages);
        if reached_at(outcomes, labels.len() - 1) {
            before
        } else {
            before.push(unreached_entry(labels, outcomes, messages, labels.len() - 1))
        }
    }
}

/// The time at which target `i` was reached; zero if it was not.
pub open spec fn reached_time(outcomes: Seq<Option<PollOutcome>>, i: int) -> u64 {
    if 0 <= i < outcomes.len() {
        match outcomes[i] {
            Some(PollOutcome::Reached { elapsed_millis }) => elapsed_millis,
            _ => 0,
        }
    } else {
        0
    }
}

/// The latest time at which one of the first `count` targets was reached;
/// zero if none of them was.
pub open spec fn latest_reached(outcomes: Seq<Option<PollOutcome>>, count: int) -> u64
    decreases count,
{
    if count <= 0 {
        0
    } else {
        let before = latest_reached(outcomes, count - 1);
        let at = reached_time(outcomes, count - 1);
        if at > before {
            at
        } else {
            before
        }
    }
}

/// The result that the outcomes of all targets make, where `messages` holds
/// for each target the text reported with its outcome.
pub open spec fn spec_wait_result(
    labels: Seq<Seq<char>>,
    outcomes: Seq<Option<PollOutcome>>,
    messages: Seq<Option<Seq<char>>>,
) -> WaitResultView {
    let missing = unreached_targets(labels, outcomes, messages);
    if missing.len() == 0 {
        WaitResultView::Success { elapsed_millis: latest_reached(outcomes, labels.len() as int) }
    } else {
        WaitResultView::Failure { unreached: missing }
    }
}

/// The pollers of a wait before any of them has started: one for each
/// target, in the order of the targets, all with the same budget and
/// configuration.
pub open spec fn spec_pollers(service: WaitServiceView) -> Seq<Poller> {
    Seq::new(
        service.targets.len(),
        |i: int| Poller::new(service.targets[i].address, service.budget, service.config),
    )
}

/// The outcome of each target when the poller of target `i` observes the
/// events `traces[i]`, and nothing where there is no such entry. A poller
/// whose events do not take it to an end has no outcome.
pub open spec fn spec_outcomes(service: WaitServiceView, traces: Seq<Seq<PollEvent>>) -> Seq<
    Option<PollOutcome>,
> {
    Seq::new(
        service.targets.len(),
        |i: int| spec_pollers(service)[i].after(entry_at(traces, i)).spec_outcome(),
    )
}

/// The result of a whole wait, from the targets to the end, where `answers`
/// holds what the lookups gave and `traces` what each poller observed. The
/// events hold the kind of each failure and no text, so the result holds no
/// message.
pub open spec fn spec_run(
    urls: Seq<Seq<char>>,
    timeout_seconds: u64,
    answers: Seq<Seq<IpAddress>>,
    traces: Seq<Seq<PollEvent>>,
) -> Result<WaitResultView, WaitServiceError> {
    match spec_new(urls, timeout_seconds, answers) {
        Ok(service) => Ok(
            spec_wait_result(
                labels(service.targets),
                spec_outcomes(service, traces),
                no_messages(service.targets.len()),
            ),
        ),
        Err(error) => Err(error),
    }
}

/// A failure among the first targets is the failure of the whole list.
proof fn lemma_resolve_all_prefix_error(
    targets: Seq<Seq<char>>,
    answers: Seq<Seq<IpAddress>>,
    k: int,
)
    requires
        0 <= k <= targets.len(),
        resolve_all(targets.take(k), answers) is Err,
    ensures
        resolve_all(targets, answers) == resolve_all(targets.take(k), answers),
    decreases targets.len(),
{
    if k == targets.len() {
        assert(targets.take(k) == targets);
    } else {
        assert(targets.drop_last().take(k) == targets.take(k));
        lemma_resolve_all_prefix_error(targets.drop_last(), answers, k);
    }
}

/// Once a target names no endpoint, the targets after it add no lookup.
proof fn lemma_lookups_stop(targets: Seq<Seq<char>>, k: int)
    requires
        0 <= k <= targets.len(),
        lookups(targets.take(k)).len() < k,
    ensures
        lookups(targets) == lookups(targets.take(k)),
    decreases targets.len(),
{
    if k == targets.len() {
        assert(targets.take(k) == targets);
    } else {
        assert(targets.drop_last().take(k) == targets.take(k));
        lemma_lookups_stop(targets.drop_last(), k);
    }
}

/// Finds what is to be looked up before [`WaitService::new`]: the endpoint
/// of each target, first to last, up to the first target that names none.
/// The answer to the lookup of endpoint `i` belongs at place `i` of the
/// answers.
pub fn endpoints_to_look_up(urls: &Vec<String>) -> (endpoints: Vec<Endpoint>)
    ensures
        endpoint_views(endpoints@) == lookups(texts(urls@)),
{
    let mut endpoints: Vec<Endpoint> = Vec::new();
    let mut i: usize = 0;
    proof {
        assert(endpoint_views(endpoints@) == Seq::<EndpointView>::empty());
    }
    while i < urls.len()
        invariant
            i <= urls.len(),
            endpoints.len() == i,
            endpoint_views(endpoints@) == lookups(texts(urls@).take(i as int)),
        decreases urls.len() - i,
    {
        proof {
            assert(texts(urls@).take(i + 1).drop_last() == texts(urls@).take(i as int));
        }
        match parse_target(urls[i].as_str()) {
            Ok(endpoint) => {
                let ghost before = endpoint_views(endpoints@);
                let ghost named = endpoint@;
                endpoints.push(endpoint);
                proof {
                    assert(endpoint_views(endpoints@) == before.push(named));
                }
            },
            Err(_) => {
                proof {
                    lemma_lookups_stop(texts(urls@), i + 1);
                }
                return endpoints;
            },
        }
        i = i + 1;
    }
    proof {
        assert(texts(urls@).take(i as int) == texts(urls@));
    }
    endpoints
}

impl WaitService {
    /// Makes a wait ready: checks that there is a target, turns the timeout
    /// into a budget and resolves every target, first to last. `answers[i]`
    /// holds what the lookup of the host of `urls[i]` gave; a target without
    /// an entry counts as one whose lookup gave nothing. The first target
    /// that fails to resolve ends the call with its error.
    pub fn new(urls: Vec<String>, timeout_seconds: u64, answers: Vec<Vec<IpAddress>>) -> (result:
        Result<WaitService, WaitServiceError>)
        ensures
            match result {
                Ok(service) => spec_new(texts(urls@), timeout_seconds, lists(answers@)) == Ok::<
                    WaitServiceView,
                    WaitServiceError,
                >(service@),
                Err(error) => spec_new(texts(urls@), timeout_seconds, lists(answers@)) == Err::<
                    WaitServiceView,
                    WaitServiceError,
                >(error),
            },
    {
        if urls.len() == 0 {
            return Err(WaitServiceError::UrlsEmpty);
        }
        let budget = TimeBudget::from_seconds(timeout_seconds);
        let nothing: Vec<IpAddress> = Vec::new();
        let mut targets: Vec<ResolvedTarget> = Vec::new();
        let mut i: usize = 0;
        proof {
            assert(target_views(targets@) == Seq::<ResolvedTargetView>::empty());
        }
        while i < urls.len()
            invariant
                i <= urls.len(),
                nothing@.len() == 0,
                targets.len() == i,
                resolve_all(texts(urls@).take(i as int), lists(answers@)) == Ok::<
                    Seq<ResolvedTargetView>,
                    WaitServiceError,
                >(target_views(targets@)),
            decreases urls.len() - i,
        {
            let ips: &Vec<IpAddress> = if i < answers.len() {
                &answers[i]
            } else {
                &nothing
            };
            proof {
                assert(texts(urls@).take(i + 1).drop_last() == texts(urls@).take(i as int));
            }
            match resolve_address(urls[i].as_str(), ips) {
                Ok(address) => {
                    let ghost before = target_views(targets@);
                    targets.push(ResolvedTarget { label: urls[i].clone(), address });
                    proof {
                        assert(target_views(targets@) == before.push(
                            ResolvedTargetView { label: urls[i as int]@, address },
                        ));
                    }
                },
                Err(error) => {
                    proof {
                        lemma_resolve_all_prefix_error(texts(urls@), lists(answers@), i + 1);
                    }
                    return Err(error);
                },
            }
            i = i + 1;
        }
        proof {
            assert(texts(urls@).take(i as int) == texts(urls@));
        }
        Ok(WaitService { targets, budget, config: PollConfig::default() })
    }

    /// The same wait with another pause between attempts and another time
    /// allowed for one attempt.
    pub fn with_config(self, config: PollConfig) -> (service: WaitService)
        ensures
            service@ == (WaitServiceView { config, ..self@ }),
    {
        proof {
            use_type_invariant(&self);
        }
        WaitService { targets: self.targets, budget: self.budget, config }
    }

    /// The resolved targets, in the order in which they were given. There is
    /// at least one.
    pub fn targets(&self) -> (targets: &Vec<ResolvedTarget>)
        ensures
            target_views(targets@) == self@.targets,
            targets.len() > 0,
    {
        proof {
            use_type_invariant(self);
        }
        &self.targets
    }

    /// The budget that every target is given.
    pub fn budget(&self) -> (budget: TimeBudget)
        ensures
            budget == self@.budget,
    {
        self.budget
    }

    /// The pause between attempts and the time allowed for one attempt.
    pub fn config(&self) -> (config: PollConfig)
        ensures
            config == self@.config,
    {
        self.config
    }

    /// One poller for each target, in the order of the targets, none of them
    /// started: see [`spec_pollers`].
    pub fn pollers(&self) -> (pollers: Vec<Poller>)
        ensures
            pollers@ == spec_pollers(self@),
            pollers.len() > 0,
    {
        proof {
            use_type_invariant(self);
        }
        let mut pollers: Vec<Poller> = Vec::new();
        let mut i: usize = 0;
        while i < self.targets.len()
            invariant
                i <= self.targets.len(),
                pollers@ == spec_pollers(self@).take(i as int),
            decreases self.targets.len() - i,
        {
            pollers.push(Poller::new(self.targets[i].address, self.budget, self.config));
            i = i + 1;
        }
        pollers
    }

    /// Makes one result of the reports of all pollers. `reports[i]` is the
    /// report on target `i`, or nothing if its poller did not report; a
    /// target without an entry counts the same. The wait succeeds if every
    /// target was reached, and the result then holds the time at which the
    /// last of them was; otherwise the result names the targets that were
    /// not, each with the failure of the last attempt on it and the message
    /// reported for that failure.
    pub fn wait_for_services(self, reports: Vec<Option<PollReport>>) -> (result: WaitResult)
        ensures
            result@ == spec_wait_result(
                labels(self@.targets),
                reported_outcomes(reports@),
                reported_messages(reports@),
            ),
    {
        let ghost names = labels(self@.targets);
        let ghost outcomes = reported_outcomes(reports@);
        let ghost messages = reported_messages(reports@);
        let mut missing: Vec<UnreachedTarget> = Vec::new();
        let mut latest: u64 = 0;
        let mut i: usize = 0;
        proof {
            assert(unreached_views(missing@) == Seq::<UnreachedTargetView>::empty());
        }
        while i < self.targets.len()
            invariant
                i <= self.targets.len(),
                names == labels(self@.targets),
                outcomes == reported_outcomes(reports@),
                messages == reported_messages(reports@),
                unreached_views(missing@) == unreached_targets(
                    names.take(i as int),
                    outcomes,
                    messages,
                ),
                latest == latest_reached(outcomes, i as int),
            decreases self.targets.len() - i,
        {
            let outcome: Option<PollOutcome> = if i < reports.len() {
                match &reports[i] {
                    Some(report) => Some(report.outcome),
                    None => None,
                }
            } else {
                None
            };
            proof {
                assert(names.take(i + 1).drop_last() == names.take(i as int));
                assert(names.take(i + 1).last() == self.targets[i as int].label@);
                assert(i < reports.len() ==> outcomes[i as int] == outcome);
            }
            match outcome {
                Some(PollOutcome::Reached { elapsed_millis }) => {
                    if elapsed_millis > latest {
                        latest = elapsed_millis;
                    }
                },
                _ => {
                    let last_error: Option<ConnectError> = match outcome {
                        Some(PollOutcome::TimedOut { last_error }) => last_error,
                        _ => None,
                    };
                    let message: Option<String> = if last_error.is_some() {
                        match &reports[i] {
                            Some(report) => match &report.message {
                                Some(text) => Some(text.clone()),
                                None => None,
                            },
                            None => None,
                        }
                    } else {
                        None
                    };
                    let ghost before = unreached_views(missing@);
                    let ghost entry = unreached_entry(
                        names.take(i + 1),
                        outcomes,
                        messages,
                        i as int,
                    );
                    let label = self.targets[i].label.clone();
                    proof {
                        assert(text_of(message) == message_at(outcomes, messages, i as int));
                    }
                    missing.push(UnreachedTarget { label, last_error, message });
                    proof {
                        assert(unreached_views(missing@) == before.push(entry));
                    }
                },
            }
            i = i + 1;
        }
        proof {
            assert(names.take(i as int) == names);
        }
        if missing.len() == 0 {
            WaitResult::Success { elapsed_millis: latest }
        } else {
            WaitResult::Failure { unreached: missing }
        }
    }

    #[verifier::type_invariant]
    spec fn has_targets(self) -> bool {
        self.targets.len() > 0
    }
}

/// Decides a whole wait from a record of what the network did: `answers`
/// holds what the lookups gave and `traces[i]` the events that the poller of
/// target `i` observed, first to last. A poller whose events do not take it
/// to an end counts as one that did not reach its target.
pub fn run(opt: Opt, answers: Vec<Vec<IpAddress>>, traces: Vec<Vec<PollEvent>>) -> (result: Result<
    WaitResult,
    WaitServiceError,
>)
    ensures
        match result {
            Ok(outcome) => spec_run(
                texts(opt.urls@),
                opt.timeout,
                lists(answers@),
                lists(traces@),
            ) == Ok::<WaitResultView, WaitServiceError>(outcome@),
            Err(error) => spec_run(texts(opt.urls@), opt.timeout, lists(answers@), lists(traces@))
                == Err::<WaitResultView, WaitServiceError>(error),
        },
{
    let service = match WaitService::new(opt.urls, opt.timeout, answers) {
        Ok(service) => service,
        Err(error) => {
            return Err(error);
        },
    };
    let pollers = service.pollers();
    let mut reports: Vec<Option<PollReport>> = Vec::new();
    let mut i: usize = 0;
    proof {
        assert(reported_outcomes(reports@) == spec_outcomes(service@, lists(traces@)).take(0));
        assert(reported_messages(reports@) == no_messages(0));
    }
    while i < pollers.len()
        invariant
            i <= pollers.len(),
            pollers@ == spec_pollers(service@),
            reported_outcomes(reports@) == spec_outcomes(service@, lists(traces@)).take(i as int),
            reported_messages(reports@) == no_messages(i as nat),
        decreases pollers.len() - i,
    {
        let mut poller: Poller = pollers[i];
        if i < traces.len() {
            let _ = poller.replay(&traces[i]);
        }
        let ghost outcomes = reported_outcomes(reports@);
        let ghost messages = reported_messages(reports@);
        let report: Option<PollReport> = match poller.outcome() {
            Some(outcome) => Some(PollReport { outcome, message: None }),
            None => None,
        };
        reports.push(report);
        proof {
            assert(reported_outcomes(reports@) == outcomes.push(poller.spec_outcome()));
            assert(reported_messages(reports@) == messages.push(None));
            assert(reported_outcomes(reports@) == spec_outcomes(service@, lists(traces@)).take(
                i + 1,
            ));
            assert(reported_messages(reports@) == no_messages((i + 1) as nat));
        }
        i = i + 1;
    }
    proof {
        assert(spec_outcomes(service@, lists(traces@)).take(i as int) == spec_outcomes(
            service@,
            lists(traces@),
        ));
    }
    Ok(service.wait_for_services(reports))
}

} // verus!
