use wait_for_rs::poll::{DEFAULT_CONNECTION_TIMEOUT, DEFAULT_INTERVAL, MIN_REPORTED_MILLIS};
use wait_for_rs::{
    ConnectError, PollAction, PollConfig, PollEvent, PollOutcome, PollState, Poller,
    SocketAddress, TimeBudget,
};

fn address() -> SocketAddress {
    SocketAddress::v4(127, 0, 0, 1, 4000)
}

fn poller(timeout_seconds: u64) -> Poller {
    Poller::new(address(), TimeBudget::from_seconds(timeout_seconds), PollConfig::default())
}

fn connect() -> PollAction {
    PollAction::Connect { address: address(), timeout_millis: 1000 }
}

fn failed(elapsed_millis: u64) -> PollEvent {
    PollEvent::Failed { elapsed_millis, error: ConnectError::Refused }
}

#[test]
fn default_config_has_the_fixed_intervals() {
    assert_eq!(DEFAULT_INTERVAL, 500);
    assert_eq!(DEFAULT_CONNECTION_TIMEOUT, 1000);
    assert_eq!(
        PollConfig::default(),
        PollConfig { interval_millis: 500, attempt_timeout_millis: 1000 }
    );
}

#[test]
fn zero_seconds_is_no_limit() {
    assert_eq!(TimeBudget::from_seconds(0), TimeBudget::Unbounded);
    assert_eq!(TimeBudget::from_seconds(1), TimeBudget::Bounded { seconds: 1 });
    assert_eq!(TimeBudget::from_seconds(u64::MAX), TimeBudget::Bounded { seconds: u64::MAX });
}

#[test]
fn budget_is_spent_from_its_limit_on() {
    let budget = TimeBudget::from_seconds(3);
    assert!(!budget.is_exhausted(0));
    assert!(!budget.is_exhausted(2999));
    assert!(budget.is_exhausted(3000));
    assert!(budget.is_exhausted(3001));
    assert!(budget.is_exhausted(u64::MAX));
    assert!(TimeBudget::Bounded { seconds: 0 }.is_exhausted(0));
}

#[test]
fn budget_of_many_seconds_does_not_overflow() {
    let budget = TimeBudget::from_seconds(u64::MAX);
    assert!(!budget.is_exhausted(u64::MAX));
    let budget = TimeBudget::from_seconds(18_446_744_073_709_551);
    assert!(budget.is_exhausted(18_446_744_073_709_551_000));
    assert!(!budget.is_exhausted(18_446_744_073_709_550_999));
    let budget = TimeBudget::from_seconds(18_446_744_073_709_552);
    assert!(!budget.is_exhausted(u64::MAX));
}

#[test]
fn unbounded_budget_is_never_spent() {
    assert!(!TimeBudget::Unbounded.is_exhausted(0));
    assert!(!TimeBudget::Unbounded.is_exhausted(u64::MAX));
}

#[test]
fn new_poller_is_idle_and_waits_to_begin() {
    let p = poller(10);
    assert_eq!(p.state, PollState::Idle);
    assert_eq!(p.pending(), PollAction::Begin);
    assert_eq!(p.outcome(), None);
    assert_eq!(p.address, address());
    assert_eq!(p.budget, TimeBudget::Bounded { seconds: 10 });
}

#[test]
fn first_attempt_that_succeeds_reaches_the_target() {
    let mut p = poller(10);
    assert_eq!(p.step(PollEvent::Started), connect());
    assert_eq!(p.state, PollState::Attempting { last_error: None });
    let action = p.step(PollEvent::Connected { elapsed_millis: 42 });
    assert_eq!(
        action,
        PollAction::Finish { outcome: PollOutcome::Reached { elapsed_millis: 42 } }
    );
    assert_eq!(p.state, PollState::Reached { elapsed_millis: 42 });
    assert_eq!(p.outcome(), Some(PollOutcome::Reached { elapsed_millis: 42 }));
}

#[test]
fn failed_attempt_with_budget_left_pauses_and_retries() {
    let mut p = poller(10);
    p.step(PollEvent::Started);
    assert_eq!(p.step(failed(3)), PollAction::Sleep { millis: 500 });
    assert_eq!(p.state, PollState::Waiting { failure: ConnectError::Refused });
    assert_eq!(p.step(PollEvent::Woke { elapsed_millis: 504 }), connect());
    assert_eq!(p.state, PollState::Attempting { last_error: Some(ConnectError::Refused) });
    assert_eq!(
        p.step(PollEvent::Connected { elapsed_millis: 510 }),
        PollAction::Finish { outcome: PollOutcome::Reached { elapsed_millis: 510 } }
    );
}

#[test]
fn failed_attempt_after_the_budget_times_out_with_its_error() {
    let mut p = poller(3);
    p.step(PollEvent::Started);
    p.step(failed(1000));
    p.step(PollEvent::Woke { elapsed_millis: 1500 });
    let action =
        p.step(PollEvent::Failed { elapsed_millis: 3000, error: ConnectError::AttemptTimedOut });
    assert_eq!(
        action,
        PollAction::Finish {
            outcome: PollOutcome::TimedOut { last_error: Some(ConnectError::AttemptTimedOut) }
        }
    );
    assert_eq!(
        p.outcome(),
        Some(PollOutcome::TimedOut { last_error: Some(ConnectError::AttemptTimedOut) })
    );
}

#[test]
fn pause_that_ends_after_the_budget_times_out_without_another_attempt() {
    let mut p = poller(3);
    p.step(PollEvent::Started);
    assert_eq!(
        p.step(PollEvent::Failed { elapsed_millis: 2999, error: ConnectError::Reset }),
        PollAction::Sleep { millis: 500 }
    );
    assert_eq!(
        p.step(PollEvent::Woke { elapsed_millis: 3499 }),
        PollAction::Finish {
            outcome: PollOutcome::TimedOut { last_error: Some(ConnectError::Reset) }
        }
    );
}

#[test]
fn budget_already_spent_at_the_start_times_out_without_an_attempt() {
    let mut p =
        Poller::new(address(), TimeBudget::Bounded { seconds: 0 }, PollConfig::default());
    assert_eq!(
        p.step(PollEvent::Started),
        PollAction::Finish { outcome: PollOutcome::TimedOut { last_error: None } }
    );
}

#[test]
fn attempt_that_succeeds_after_the_limit_times_out() {
    let mut p = poller(1);
    p.step(PollEvent::Started);
    assert_eq!(
        p.step(PollEvent::Connected { elapsed_millis: 1900 }),
        PollAction::Finish { outcome: PollOutcome::TimedOut { last_error: None } }
    );

    let mut p = poller(1);
    p.step(PollEvent::Started);
    assert_eq!(
        p.step(PollEvent::Connected { elapsed_millis: 1000 }),
        PollAction::Finish { outcome: PollOutcome::TimedOut { last_error: None } }
    );

    let mut p = poller(1);
    p.step(PollEvent::Started);
    assert_eq!(
        p.step(PollEvent::Connected { elapsed_millis: 999 }),
        PollAction::Finish { outcome: PollOutcome::Reached { elapsed_millis: 999 } }
    );
}

#[test]
fn late_success_times_out_with_the_failure_before_it() {
    let mut p = poller(3);
    p.step(PollEvent::Started);
    p.step(PollEvent::Failed { elapsed_millis: 1000, error: ConnectError::Refused });
    p.step(PollEvent::Woke { elapsed_millis: 1500 });
    p.step(PollEvent::Failed { elapsed_millis: 2000, error: ConnectError::Reset });
    assert_eq!(p.step(PollEvent::Woke { elapsed_millis: 2500 }), connect());
    assert_eq!(
        p.step(PollEvent::Connected { elapsed_millis: 3400 }),
        PollAction::Finish {
            outcome: PollOutcome::TimedOut { last_error: Some(ConnectError::Reset) }
        }
    );
    assert_eq!(
        p.outcome(),
        Some(PollOutcome::TimedOut { last_error: Some(ConnectError::Reset) })
    );
}

#[test]
fn without_limit_the_poller_retries_however_late() {
    let mut p = poller(0);
    assert_eq!(p.budget, TimeBudget::Unbounded);
    p.step(PollEvent::Started);
    let mut clock: u64 = 0;
    for _ in 0..1000 {
        clock += 86_400_000;
        assert_eq!(p.step(failed(clock)), PollAction::Sleep { millis: 500 });
        clock += 500;
        assert_eq!(p.step(PollEvent::Woke { elapsed_millis: clock }), connect());
    }
    assert_eq!(p.step(failed(u64::MAX)), PollAction::Sleep { millis: 500 });
    assert_eq!(p.step(PollEvent::Woke { elapsed_millis: u64::MAX }), connect());
    assert_eq!(
        p.step(PollEvent::Connected { elapsed_millis: u64::MAX }),
        PollAction::Finish { outcome: PollOutcome::Reached { elapsed_millis: u64::MAX } }
    );
}

#[test]
fn event_that_is_not_awaited_changes_nothing() {
    let mut p = poller(10);
    assert_eq!(p.step(PollEvent::Connected { elapsed_millis: 1 }), PollAction::Begin);
    assert_eq!(p.step(failed(1)), PollAction::Begin);
    assert_eq!(p.step(PollEvent::Woke { elapsed_millis: 99_000 }), PollAction::Begin);
    assert_eq!(p.state, PollState::Idle);
    p.step(PollEvent::Started);
    assert_eq!(p.step(PollEvent::Started), connect());
    assert_eq!(p.step(PollEvent::Woke { elapsed_millis: 99_000 }), connect());
    assert_eq!(p.state, PollState::Attempting { last_error: None });
    p.step(failed(10));
    assert_eq!(p.step(PollEvent::Started), PollAction::Sleep { millis: 500 });
    assert_eq!(p.step(failed(99_000)), PollAction::Sleep { millis: 500 });
    assert_eq!(
        p.step(PollEvent::Connected { elapsed_millis: 20 }),
        PollAction::Sleep { millis: 500 }
    );
    assert_eq!(p.state, PollState::Waiting { failure: ConnectError::Refused });
}

#[test]
fn ended_poll_stays_ended() {
    let mut reached = poller(10);
    reached.step(PollEvent::Started);
    reached.step(PollEvent::Connected { elapsed_millis: 7 });
    let mut timed_out = poller(1);
    timed_out.step(PollEvent::Started);
    timed_out.step(failed(1000));
    for event in [
        PollEvent::Started,
        PollEvent::Connected { elapsed_millis: 8 },
        failed(20_000),
        PollEvent::Woke { elapsed_millis: 30_000 },
    ] {
        assert_eq!(
            reached.step(event),
            PollAction::Finish { outcome: PollOutcome::Reached { elapsed_millis: 7 } }
        );
        assert_eq!(
            timed_out.step(event),
            PollAction::Finish {
                outcome: PollOutcome::TimedOut { last_error: Some(ConnectError::Refused) }
            }
        );
    }
}

#[test]
fn last_error_is_that_of_the_last_attempt() {
    let mut p = poller(2);
    p.step(PollEvent::Started);
    p.step(PollEvent::Failed { elapsed_millis: 10, error: ConnectError::Unreachable });
    p.step(PollEvent::Woke { elapsed_millis: 510 });
    p.step(PollEvent::Failed { elapsed_millis: 520, error: ConnectError::Other });
    assert_eq!(
        p.step(PollEvent::Woke { elapsed_millis: 2000 }),
        PollAction::Finish {
            outcome: PollOutcome::TimedOut { last_error: Some(ConnectError::Other) }
        }
    );
}

#[test]
fn config_sets_the_pause_and_the_attempt_timeout() {
    let config = PollConfig { interval_millis: 5, attempt_timeout_millis: 20 };
    let mut p = Poller::new(address(), TimeBudget::from_seconds(1), config);
    assert_eq!(
        p.step(PollEvent::Started),
        PollAction::Connect { address: address(), timeout_millis: 20 }
    );
    assert_eq!(p.step(failed(1)), PollAction::Sleep { millis: 5 });
}

#[test]
fn replay_is_step_on_each_event() {
    let events = vec![
        PollEvent::Started,
        failed(100),
        PollEvent::Woke { elapsed_millis: 600 },
        failed(700),
        PollEvent::Woke { elapsed_millis: 1200 },
    ];
    let mut stepped = poller(5);
    let mut last = stepped.pending();
    for event in &events {
        last = stepped.step(*event);
    }
    let mut replayed = poller(5);
    assert_eq!(replayed.replay(&events), last);
    assert_eq!(replayed, stepped);
    assert_eq!(replayed.pending(), connect());

    let mut untouched = poller(5);
    assert_eq!(untouched.replay(&vec![]), PollAction::Begin);
    assert_eq!(untouched, poller(5));
}

#[test]
fn reported_time_is_at_least_a_tenth_of_a_second() {
    assert_eq!(MIN_REPORTED_MILLIS, 100);
    assert_eq!(PollOutcome::Reached { elapsed_millis: 0 }.reported_millis(), Some(100));
    assert_eq!(PollOutcome::Reached { elapsed_millis: 99 }.reported_millis(), Some(100));
    assert_eq!(PollOutcome::Reached { elapsed_millis: 100 }.reported_millis(), Some(100));
    assert_eq!(PollOutcome::Reached { elapsed_millis: 101 }.reported_millis(), Some(101));
    assert_eq!(PollOutcome::Reached { elapsed_millis: 2500 }.reported_millis(), Some(2500));
    assert_eq!(PollOutcome::TimedOut { last_error: None }.reported_millis(), None);
}

#[test]
fn outcome_says_whether_the_target_was_reached() {
    assert!(PollOutcome::Reached { elapsed_millis: 1 }.is_reached());
    assert!(!PollOutcome::TimedOut { last_error: None }.is_reached());
    assert!(!PollOutcome::TimedOut { last_error: Some(ConnectError::Refused) }.is_reached());
}

/// Runs a poller whose target refuses every attempt, with a caller that
/// takes `attempt_millis` for each attempt and sleeps exactly as long as it
/// is told. Gives the time on the clock when the poll ended.
fn time_until_timed_out(timeout_seconds: u64, config: PollConfig, attempt_millis: u64) -> u64 {
    let mut p = Poller::new(address(), TimeBudget::from_seconds(timeout_seconds), config);
    let mut clock: u64 = 0;
    let mut action = p.pending();
    loop {
        let event = match action {
            PollAction::Begin => PollEvent::Started,
            PollAction::Connect { timeout_millis, .. } => {
                assert!(attempt_millis <= timeout_millis);
                clock += attempt_millis;
                failed(clock)
            }
            PollAction::Sleep { millis } => {
                clock += millis;
                PollEvent::Woke { elapsed_millis: clock }
            }
            PollAction::Finish { outcome } => {
                assert!(!outcome.is_reached());
                return clock;
            }
        };
        action = p.step(event);
    }
}

#[test]
fn poll_times_out_at_the_limit_and_not_long_after() {
    let config = PollConfig::default();
    for timeout_seconds in [1, 2, 3, 10, 60] {
        for attempt_millis in [0, 1, 250, 499, 500, 999, 1000] {
            let ended = time_until_timed_out(timeout_seconds, config, attempt_millis);
            assert!(ended >= timeout_seconds * 1000);
            assert!(ended <= timeout_seconds * 1000 + 1000);
        }
    }
    assert_eq!(time_until_timed_out(3, config, 0), 3000);
    assert_eq!(time_until_timed_out(3, config, 1000), 3000);
    assert_eq!(time_until_timed_out(3, config, 999), 3997);
    assert_eq!(time_until_timed_out(1, config, 700), 1200);
    let quick = PollConfig { interval_millis: 7, attempt_timeout_millis: 3 };
    assert_eq!(time_until_timed_out(1, quick, 3), 1000);
    assert_eq!(time_until_timed_out(1, quick, 2), 1001);
}
