use wait_for_rs::{
    endpoints_to_look_up, run, ConnectError, Endpoint, IpAddress, Opt, PollConfig, PollEvent,
    PollOutcome, PollReport, Poller, ResolvedTarget, SocketAddress, TimeBudget, UnreachedTarget,
    WaitResult, WaitService, WaitServiceError,
};

fn strings(texts: &[&str]) -> Vec<String> {
    texts.iter().map(|t| t.to_string()).collect()
}

/// Targets that timed out after an attempt that was refused.
fn refused(labels: &[&str]) -> Vec<UnreachedTarget> {
    labels
        .iter()
        .map(|l| UnreachedTarget {
            label: l.to_string(),
            last_error: Some(ConnectError::Refused),
            message: None,
        })
        .collect()
}

/// The report of a poller that gave `outcome` and has no text to add.
fn report(outcome: PollOutcome) -> Option<PollReport> {
    Some(PollReport { outcome, message: None })
}

/// Targets that ended without the failure of an attempt.
fn silent(labels: &[&str]) -> Vec<UnreachedTarget> {
    labels
        .iter()
        .map(|l| UnreachedTarget { label: l.to_string(), last_error: None, message: None })
        .collect()
}

fn localhost() -> Vec<IpAddress> {
    vec![IpAddress::v4(127, 0, 0, 1)]
}

fn reached_after(millis: u64) -> Vec<PollEvent> {
    vec![PollEvent::Started, PollEvent::Connected { elapsed_millis: millis }]
}

/// A target that refuses every attempt: one attempt each half second, until
/// the pause ends at or after `until_millis`.
fn refused_until(until_millis: u64) -> Vec<PollEvent> {
    let mut events = vec![PollEvent::Started];
    let mut clock: u64 = 0;
    while clock < until_millis {
        clock += 1;
        events.push(PollEvent::Failed { elapsed_millis: clock, error: ConnectError::Refused });
        clock += 500;
        events.push(PollEvent::Woke { elapsed_millis: clock });
    }
    events
}

fn service(urls: &[&str], timeout_seconds: u64) -> WaitService {
    let answers = urls.iter().map(|_| localhost()).collect();
    match WaitService::new(strings(urls), timeout_seconds, answers) {
        Ok(service) => service,
        Err(error) => panic!("{:?}", error),
    }
}

#[test]
fn no_args_fail() {
    let opt = Opt { urls: vec![], timeout: 10 };
    assert_eq!(run(opt, vec![], vec![]), Err(WaitServiceError::UrlsEmpty));
    assert!(matches!(WaitService::new(vec![], 10, vec![]), Err(WaitServiceError::UrlsEmpty)));
    assert!(matches!(
        WaitService::new(vec![], 0, vec![localhost()]),
        Err(WaitServiceError::UrlsEmpty)
    ));
}

#[test]
fn invalid_urls_fails() {
    // The host `invalid` has no address: the lookup gave nothing.
    let opt = Opt { urls: strings(&["invalid:5000"]), timeout: 10 };
    assert_eq!(endpoints_to_look_up(&opt.urls), vec![endpoint("invalid", 5000)]);
    let result = run(opt, vec![vec![]], vec![reached_after(1)]);
    assert_eq!(result, Err(WaitServiceError::HostUnresolvable));
    assert!(WaitServiceError::HostUnresolvable.is_resolution_error());
}

#[test]
fn multiple_addresses_one_not_working_fails() {
    let opt = Opt { urls: strings(&["127.0.0.1:4000", "127.0.0.1:5000"]), timeout: 3 };
    let answers = vec![localhost(), localhost()];
    let traces = vec![reached_after(10), refused_until(3000)];
    assert_eq!(
        run(opt, answers, traces),
        Ok(WaitResult::Failure { unreached: refused(&["127.0.0.1:5000"]) })
    );
}

#[test]
fn one_address_works() {
    let opt = Opt { urls: strings(&["127.0.0.1:4000"]), timeout: 10 };
    let mut trace = vec![
        PollEvent::Started,
        PollEvent::Failed { elapsed_millis: 1, error: ConnectError::Refused },
        PollEvent::Woke { elapsed_millis: 501 },
    ];
    trace.push(PollEvent::Connected { elapsed_millis: 502 });
    assert_eq!(
        run(opt, vec![localhost()], vec![trace]),
        Ok(WaitResult::Success { elapsed_millis: 502 })
    );
}

#[test]
fn multiple_addresses_works() {
    let opt = Opt { urls: strings(&["127.0.0.1:4000", "127.0.0.1:6000"]), timeout: 10 };
    let answers = vec![localhost(), localhost()];
    let traces = vec![reached_after(20), reached_after(15)];
    assert_eq!(run(opt, answers, traces), Ok(WaitResult::Success { elapsed_millis: 20 }));
}

#[test]
fn multiple_addresses_with_timeout_works() {
    let opt = Opt { urls: strings(&["127.0.0.1:4000", "127.0.0.1:6000"]), timeout: 5 };
    let answers = vec![localhost(), localhost()];
    let traces = vec![reached_after(10), reached_after(10)];
    assert_eq!(run(opt, answers, traces), Ok(WaitResult::Success { elapsed_millis: 10 }));
}

#[test]
fn one_address_one_https_works() {
    let urls = strings(&["127.0.0.1:4000", "https://google.com"]);
    let answers = vec![localhost(), vec![IpAddress::v4(142, 250, 74, 14), IpAddress::V6(9)]];
    let ready = match WaitService::new(urls.clone(), 10, answers.clone()) {
        Ok(service) => service,
        Err(error) => panic!("{:?}", error),
    };
    assert_eq!(
        ready.targets(),
        &vec![
            ResolvedTarget {
                label: "127.0.0.1:4000".to_string(),
                address: SocketAddress::v4(127, 0, 0, 1, 4000),
            },
            ResolvedTarget {
                label: "https://google.com".to_string(),
                address: SocketAddress::v4(142, 250, 74, 14, 443),
            },
        ]
    );
    let opt = Opt { urls, timeout: 10 };
    let traces = vec![reached_after(10), reached_after(80)];
    assert_eq!(run(opt, answers, traces), Ok(WaitResult::Success { elapsed_millis: 80 }));
}

#[test]
fn ready_wait_keeps_budget_and_default_config() {
    let ready = service(&["127.0.0.1:4000"], 7);
    assert_eq!(ready.budget(), TimeBudget::Bounded { seconds: 7 });
    assert_eq!(ready.config(), PollConfig::default());
    assert_eq!(service(&["127.0.0.1:4000"], 0).budget(), TimeBudget::Unbounded);
}

#[test]
fn config_can_be_replaced() {
    let config = PollConfig { interval_millis: 1, attempt_timeout_millis: 2 };
    let ready = service(&["127.0.0.1:4000", "127.0.0.1:4001"], 7).with_config(config);
    assert_eq!(ready.config(), config);
    assert_eq!(ready.budget(), TimeBudget::Bounded { seconds: 7 });
    assert_eq!(ready.targets().len(), 2);
    assert_eq!(
        ready.pollers(),
        vec![
            Poller::new(SocketAddress::v4(127, 0, 0, 1, 4000), ready.budget(), config),
            Poller::new(SocketAddress::v4(127, 0, 0, 1, 4001), ready.budget(), config),
        ]
    );
}

#[test]
fn one_poller_for_each_target_in_order() {
    let ready = service(&["127.0.0.1:1", "http://example.com", "127.0.0.1:1"], 4);
    let budget = TimeBudget::Bounded { seconds: 4 };
    assert_eq!(
        ready.pollers(),
        vec![
            Poller::new(SocketAddress::v4(127, 0, 0, 1, 1), budget, PollConfig::default()),
            Poller::new(SocketAddress::v4(127, 0, 0, 1, 80), budget, PollConfig::default()),
            Poller::new(SocketAddress::v4(127, 0, 0, 1, 1), budget, PollConfig::default()),
        ]
    );
}

#[test]
fn first_target_that_fails_to_resolve_decides_the_error() {
    let urls = strings(&["127.0.0.1:4000", "nothing", "ftp://files"]);
    let answers = vec![localhost(), localhost(), localhost()];
    assert!(matches!(
        WaitService::new(urls, 10, answers),
        Err(WaitServiceError::MalformedTarget)
    ));
    let urls = strings(&["127.0.0.1:4000", "ftp://files", "nothing"]);
    let answers = vec![vec![], localhost(), localhost()];
    assert!(matches!(
        WaitService::new(urls, 10, answers),
        Err(WaitServiceError::HostUnresolvable)
    ));
}

#[test]
fn target_without_answer_is_unresolved() {
    let urls = strings(&["127.0.0.1:4000", "127.0.0.1:5000"]);
    assert!(matches!(
        WaitService::new(urls.clone(), 10, vec![localhost()]),
        Err(WaitServiceError::HostUnresolvable)
    ));
    assert!(matches!(
        WaitService::new(urls, 10, vec![]),
        Err(WaitServiceError::HostUnresolvable)
    ));
}

#[test]
fn unresolved_target_stops_the_wait_before_polling() {
    let opt = Opt { urls: strings(&["127.0.0.1:4000", "db.internal:5432"]), timeout: 3 };
    let answers = vec![localhost(), vec![]];
    let traces = vec![reached_after(1), reached_after(1)];
    assert_eq!(run(opt, answers, traces), Err(WaitServiceError::HostUnresolvable));
    let opt = Opt { urls: strings(&["127.0.0.1:4000", "ftp://files"]), timeout: 3 };
    let answers = vec![localhost(), localhost()];
    let traces = vec![reached_after(1), reached_after(1)];
    assert_eq!(run(opt, answers, traces), Err(WaitServiceError::UnknownScheme));
}

#[test]
fn outcomes_of_all_targets_make_one_result() {
    let reached = || report(PollOutcome::Reached { elapsed_millis: 5 });
    let timed_out = || report(PollOutcome::TimedOut { last_error: Some(ConnectError::Refused) });
    let urls = ["127.0.0.1:1", "127.0.0.1:2", "127.0.0.1:3"];
    assert_eq!(
        service(&urls, 3).wait_for_services(vec![reached(), reached(), reached()]),
        WaitResult::Success { elapsed_millis: 5 }
    );
    let earlier = || report(PollOutcome::Reached { elapsed_millis: 0 });
    let later = || report(PollOutcome::Reached { elapsed_millis: 2999 });
    assert_eq!(
        service(&urls, 3).wait_for_services(vec![earlier(), later(), reached()]),
        WaitResult::Success { elapsed_millis: 2999 }
    );
    assert_eq!(
        service(&urls, 3).wait_for_services(vec![earlier(), earlier(), earlier()]),
        WaitResult::Success { elapsed_millis: 0 }
    );
    assert_eq!(
        service(&urls, 3).wait_for_services(vec![timed_out(), reached(), timed_out()]),
        WaitResult::Failure { unreached: refused(&["127.0.0.1:1", "127.0.0.1:3"]) }
    );
    assert_eq!(
        service(&urls, 3).wait_for_services(vec![timed_out(), timed_out(), timed_out()]),
        WaitResult::Failure { unreached: refused(&urls) }
    );
}

#[test]
fn target_without_outcome_counts_as_unreached() {
    let reached = || report(PollOutcome::Reached { elapsed_millis: 5 });
    let urls = ["127.0.0.1:1", "127.0.0.1:2"];
    assert_eq!(
        service(&urls, 3).wait_for_services(vec![reached(), None]),
        WaitResult::Failure { unreached: silent(&["127.0.0.1:2"]) }
    );
    assert_eq!(
        service(&urls, 3).wait_for_services(vec![reached()]),
        WaitResult::Failure { unreached: silent(&["127.0.0.1:2"]) }
    );
    assert_eq!(
        service(&urls, 3).wait_for_services(vec![]),
        WaitResult::Failure { unreached: silent(&urls) }
    );
    assert_eq!(
        service(&urls, 3).wait_for_services(vec![
            reached(),
            reached(),
            report(PollOutcome::Reached { elapsed_millis: 900 }),
            None,
        ]),
        WaitResult::Success { elapsed_millis: 5 }
    );
}

#[test]
fn same_target_given_twice_is_polled_and_reported_twice() {
    let urls = ["127.0.0.1:1", "127.0.0.1:1"];
    let ready = service(&urls, 3);
    assert_eq!(ready.targets().len(), 2);
    let timed_out = || report(PollOutcome::TimedOut { last_error: None });
    assert_eq!(
        ready.wait_for_services(vec![timed_out(), timed_out()]),
        WaitResult::Failure { unreached: silent(&urls) }
    );
}

#[test]
fn result_says_whether_it_is_a_success() {
    assert!(WaitResult::Success { elapsed_millis: 1 }.is_success());
    assert!(!WaitResult::Failure { unreached: silent(&["a:1"]) }.is_success());
}

#[test]
fn poller_that_did_not_end_counts_as_unreached() {
    let opt = Opt { urls: strings(&["127.0.0.1:4000", "127.0.0.1:5000"]), timeout: 30 };
    let answers = vec![localhost(), localhost()];
    let traces = vec![refused_until(1000), reached_after(3)];
    assert_eq!(
        run(opt.clone(), answers.clone(), traces),
        Ok(WaitResult::Failure { unreached: silent(&["127.0.0.1:4000"]) })
    );
    assert_eq!(
        run(opt, answers, vec![]),
        Ok(WaitResult::Failure { unreached: silent(&["127.0.0.1:4000", "127.0.0.1:5000"]) })
    );
}

#[test]
fn zero_timeout_reaches_a_target_that_answers_late() {
    let opt = Opt { urls: strings(&["127.0.0.1:4000"]), timeout: 0 };
    let mut trace = refused_until(3_600_000);
    trace.push(PollEvent::Connected { elapsed_millis: 3_600_600 });
    assert_eq!(
        run(opt, vec![localhost()], vec![trace.clone()]),
        Ok(WaitResult::Success { elapsed_millis: 3_600_600 })
    );

    let bounded = Opt { urls: strings(&["127.0.0.1:4000"]), timeout: 3600 };
    assert_eq!(
        run(bounded, vec![localhost()], vec![trace]),
        Ok(WaitResult::Failure { unreached: refused(&["127.0.0.1:4000"]) })
    );
}

#[test]
fn unreachable_target_does_not_change_the_outcome_of_the_others() {
    let urls = strings(&["127.0.0.1:4000", "127.0.0.1:5000", "127.0.0.1:6000"]);
    let answers = vec![localhost(), localhost(), localhost()];
    let ready = match WaitService::new(urls.clone(), 3, answers.clone()) {
        Ok(service) => service,
        Err(error) => panic!("{:?}", error),
    };
    let alone = {
        let mut poller = ready.pollers()[0];
        poller.replay(&reached_after(250));
        poller.outcome()
    };
    assert_eq!(alone, Some(PollOutcome::Reached { elapsed_millis: 250 }));
    let opt = Opt { urls, timeout: 3 };
    let traces = vec![reached_after(250), refused_until(3000), reached_after(40)];
    assert_eq!(
        run(opt, answers, traces),
        Ok(WaitResult::Failure { unreached: refused(&["127.0.0.1:5000"]) })
    );
}

#[test]
fn error_messages_name_the_fault() {
    assert_eq!(WaitServiceError::UrlsEmpty.message(), "Urls are empty");
    assert_eq!(WaitServiceError::MalformedTarget.message(), "Cannot parse url");
    assert!(!WaitServiceError::UrlsEmpty.is_resolution_error());
    assert!(WaitServiceError::MalformedTarget.is_resolution_error());
    assert!(WaitServiceError::HostUnresolvable.is_resolution_error());
    for error in [
        WaitServiceError::UrlsEmpty,
        WaitServiceError::MalformedTarget,
        WaitServiceError::UnknownScheme,
        WaitServiceError::HostUnresolvable,
    ] {
        assert!(!error.message().is_empty());
    }
}

fn endpoint(host: &str, port: u16) -> Endpoint {
    Endpoint { host: host.to_string(), port }
}

#[test]
fn every_target_that_names_an_endpoint_is_looked_up() {
    let urls = strings(&[
        "127.0.0.1:4000",
        "https://example.com",
        "http://db.internal:8080",
        "db:5432",
    ]);
    assert_eq!(
        endpoints_to_look_up(&urls),
        vec![
            endpoint("127.0.0.1", 4000),
            endpoint("example.com", 443),
            endpoint("db.internal", 8080),
            endpoint("db", 5432),
        ]
    );
    assert_eq!(endpoints_to_look_up(&vec![]), vec![]);
}

#[test]
fn nothing_is_looked_up_from_the_first_unparsable_target_on() {
    let urls = strings(&["127.0.0.1:4000", "ftp://files", "127.0.0.1:6000"]);
    assert_eq!(endpoints_to_look_up(&urls), vec![endpoint("127.0.0.1", 4000)]);
    let urls = strings(&["nothing", "127.0.0.1:6000"]);
    assert_eq!(endpoints_to_look_up(&urls), vec![]);
}

#[test]
fn answers_to_the_lookups_asked_for_are_enough() {
    let urls = strings(&["127.0.0.1:4000", "ftp://files", "127.0.0.1:6000"]);
    let asked = endpoints_to_look_up(&urls).len();
    assert_eq!(asked, 1);
    let few: Vec<Vec<IpAddress>> = vec![localhost()];
    let many: Vec<Vec<IpAddress>> = vec![localhost(), vec![], localhost(), localhost()];
    assert!(matches!(
        WaitService::new(urls.clone(), 3, few),
        Err(WaitServiceError::UnknownScheme)
    ));
    assert!(matches!(
        WaitService::new(urls, 3, many),
        Err(WaitServiceError::UnknownScheme)
    ));
}

#[test]
fn unreached_targets_keep_the_failure_of_their_last_attempt() {
    let urls = ["127.0.0.1:1", "127.0.0.1:2", "127.0.0.1:3", "127.0.0.1:4"];
    let reports = vec![
        Some(PollReport {
            outcome: PollOutcome::TimedOut { last_error: Some(ConnectError::AttemptTimedOut) },
            message: Some("connection timed out".to_string()),
        }),
        Some(PollReport {
            outcome: PollOutcome::Reached { elapsed_millis: 8 },
            message: Some("Connection refused (os error 111)".to_string()),
        }),
        Some(PollReport {
            outcome: PollOutcome::TimedOut { last_error: None },
            message: Some("not the text of a failed attempt".to_string()),
        }),
        Some(PollReport {
            outcome: PollOutcome::TimedOut { last_error: Some(ConnectError::Unreachable) },
            message: None,
        }),
    ];
    assert_eq!(
        service(&urls, 3).wait_for_services(reports),
        WaitResult::Failure {
            unreached: vec![
                UnreachedTarget {
                    label: "127.0.0.1:1".to_string(),
                    last_error: Some(ConnectError::AttemptTimedOut),
                    message: Some("connection timed out".to_string()),
                },
                UnreachedTarget {
                    label: "127.0.0.1:3".to_string(),
                    last_error: None,
                    message: None,
                },
                UnreachedTarget {
                    label: "127.0.0.1:4".to_string(),
                    last_error: Some(ConnectError::Unreachable),
                    message: None,
                },
            ]
        }
    );
}

#[test]
fn success_that_comes_after_the_limit_fails_the_wait() {
    let opt = Opt { urls: strings(&["127.0.0.1:4000"]), timeout: 3 };
    let trace = vec![
        PollEvent::Started,
        PollEvent::Failed { elapsed_millis: 900, error: ConnectError::AttemptTimedOut },
        PollEvent::Woke { elapsed_millis: 1400 },
        PollEvent::Failed { elapsed_millis: 2400, error: ConnectError::AttemptTimedOut },
        PollEvent::Woke { elapsed_millis: 2900 },
        PollEvent::Connected { elapsed_millis: 3000 },
    ];
    assert_eq!(
        run(opt, vec![localhost()], vec![trace]),
        Ok(WaitResult::Failure {
            unreached: vec![UnreachedTarget {
                label: "127.0.0.1:4000".to_string(),
                last_error: Some(ConnectError::AttemptTimedOut),
                message: None,
            }]
        })
    );
}

#[test]
fn bare_host_and_port_target_is_polled_at_the_looked_up_address() {
    let urls = strings(&["db:5432"]);
    let answers = vec![vec![IpAddress::v4(10, 0, 0, 7), IpAddress::v4(10, 0, 0, 8)]];
    let ready = match WaitService::new(urls, 10, answers) {
        Ok(service) => service,
        Err(error) => panic!("{:?}", error),
    };
    assert_eq!(ready.pollers()[0].address, SocketAddress::v4(10, 0, 0, 7, 5432));
}

#[test]
fn timed_out_target_keeps_the_message_of_the_transport() {
    let text = "Connection refused (os error 111)";
    let reports = vec![Some(PollReport {
        outcome: PollOutcome::TimedOut { last_error: Some(ConnectError::Refused) },
        message: Some(text.to_string()),
    })];
    assert_eq!(
        service(&["db:5432"], 3).wait_for_services(reports),
        WaitResult::Failure {
            unreached: vec![UnreachedTarget {
                label: "db:5432".to_string(),
                last_error: Some(ConnectError::Refused),
                message: Some(text.to_string()),
            }]
        }
    );
}
