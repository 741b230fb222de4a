use zorca::engine::{
    checked_target, complete_requests_v1, ip6_address, ip6_uri_from_string, make_auth_headers,
    make_path, make_requests_v1, ProbeAnswers,
};
use zorca::errors::{CombinedError, ErrorKind};
use zorca::orca::{
    AppState, CommittedState, InAppState, IncomingState, Info, Metrics, WorkersCount,
    WorkersDistribution,
};
use zorca::resources::Endpoint;
use zorca::strmap::StrMap;
use zorca::text::decimal_text;

fn info() -> Info {
    Info { uptime: 77, version: "1.2".to_string(), uuid: "node-uuid".to_string() }
}

fn committed(apps: Vec<(&str, &str, i64)>) -> CommittedState {
    let mut state = StrMap::new();
    for (app, st, workers) in apps {
        state.insert(
            app.to_string(),
            AppState {
                profile: "p".to_string(),
                state: st.to_string(),
                workers,
                state_version: 1,
                about_state: None,
                state_description: None,
                time_stamp: 0,
            },
        );
    }
    CommittedState { state, version: 3, timestamp: 9 }
}

fn answers() -> ProbeAnswers {
    ProbeAnswers {
        info: Ok(info()),
        state: Ok(committed(vec![("X", "STARTED", 5), ("Y", "STARTED", 1), ("Z", "BROKEN", 4)])),
        metrics: Ok(StrMap::new()),
        incoming: None,
        running: None,
    }
}

#[test]
fn decimal_text_of_ports() {
    assert_eq!(decimal_text(0), "0");
    assert_eq!(decimal_text(7), "7");
    assert_eq!(decimal_text(10), "10");
    assert_eq!(decimal_text(8877), "8877");
    assert_eq!(decimal_text(9878), "9878");
    assert_eq!(decimal_text(65535), "65535");
}

#[test]
fn address_of_a_handle() {
    let target = ip6_uri_from_string("::1", 8877, "info").unwrap();
    assert_eq!(target, "http://[::1]:8877/info");
    let other = ip6_uri_from_string("2001:db8::7", 80, "v1/state").unwrap();
    assert_eq!(other, "http://[2001:db8::7]:80/v1/state");
}

#[test]
fn address_is_formed_from_its_parts() {
    assert_eq!(ip6_address("::1", 8877, "info"), "http://[::1]:8877/info");
    assert_eq!(ip6_address("", 0, ""), "http://[]:0/");
    assert_eq!(ip6_address("a b", 65535, "v1/metrics?flatten"), "http://[a b]:65535/v1/metrics?flatten");
}

#[test]
fn refused_address_is_named_in_the_failure() {
    assert_eq!(checked_target("http://[::1]:1/x".to_string(), true).unwrap(), "http://[::1]:1/x");
    match checked_target("anything".to_string(), false) {
        Err(CombinedError::UriParseError(text)) => assert_eq!(text, "anything"),
        other => panic!("unexpected: {:?}", other),
    }
}

#[test]
fn malformed_address_is_refused() {
    match ip6_uri_from_string("not a host", 8877, "info") {
        Err(CombinedError::UriParseError(text)) => assert_eq!(text, "http://[not a host]:8877/info"),
        other => panic!("unexpected: {:?}", other),
    }
    let refused = ip6_uri_from_string("::1", 8877, "in fo").unwrap_err();
    assert_eq!(refused.kind(), ErrorKind::Validation);
    assert!(!refused.kind().is_fatal());
}

#[test]
fn path_under_a_version() {
    assert_eq!(make_path("v1", "state"), "v1/state");
    assert_eq!(make_path("v1", "metrics?flatten"), "v1/metrics?flatten");
    assert_eq!(make_path("", ""), "/");
}

#[test]
fn three_calls_of_a_probe() {
    let calls = make_requests_v1(&Endpoint("fe80::2".to_string(), 1234));
    assert_eq!(calls.info.unwrap(), "http://[fe80::2]:8877/info");
    assert_eq!(calls.state.unwrap(), "http://[fe80::2]:8877/v1/state");
    assert_eq!(calls.metrics.unwrap(), "http://[fe80::2]:8877/v1/metrics?flatten");
}

#[test]
fn calls_to_a_malformed_host_fail_each() {
    let calls = make_requests_v1(&Endpoint("a b".to_string(), 1));
    assert!(matches!(calls.info, Err(CombinedError::UriParseError(_))));
    assert!(matches!(calls.state, Err(CombinedError::UriParseError(_))));
    assert!(matches!(calls.metrics, Err(CombinedError::UriParseError(_))));
}

#[test]
fn authorization_header_carries_the_text() {
    assert!(make_auth_headers(None).is_none());
    let headers = make_auth_headers(Some("TVM abc".to_string())).unwrap();
    assert_eq!(headers.len(), 1);
    assert_eq!(headers[0].name, b"authorization".to_vec());
    assert_eq!(headers[0].data, b"TVM abc".to_vec());
}

#[test]
fn probe_assembles_the_telemetry() {
    let mut given = answers();
    let mut metrics: Metrics = StrMap::new();
    metrics.insert("load".to_string(), 1.5f64.to_bits());
    given.metrics = Ok(metrics);
    let mut incoming = IncomingState::new();
    incoming.state.insert("X".to_string(), InAppState { profile: "p".to_string(), workers: 5 });
    incoming.state.insert("W".to_string(), InAppState { profile: "p".to_string(), workers: 2 });
    given.incoming = Some(incoming);
    let mut running: WorkersDistribution = StrMap::new();
    running.insert("X".to_string(), 3);
    given.running = Some(running);

    let (host, orca) =
        complete_requests_v1("host1.net".to_string(), Endpoint("::1".to_string(), 8877), given).unwrap();
    assert_eq!(host, "host1.net");
    assert_eq!(orca.endpoints.len(), 1);
    assert_eq!(orca.endpoints[0].0, "::1");
    assert_eq!(orca.info.uuid, "node-uuid");
    assert_eq!(orca.committed_state.version, 3);
    assert_eq!(f64::from_bits(*orca.metrics.get(&"load".to_string()).unwrap()), 1.5);
    assert_eq!(orca.distribution.len(), 3);
    assert_eq!(*orca.distribution.get(&"X".to_string()).unwrap(), WorkersCount {
        input: 5,
        output: 5,
        runtime: 3,
        mismatch_inout: false,
        mismatch_runtime: true,
    });
    assert_eq!(*orca.distribution.get(&"Y".to_string()).unwrap(), WorkersCount {
        input: 0,
        output: 1,
        runtime: 0,
        mismatch_inout: true,
        mismatch_runtime: false,
    });
    assert_eq!(*orca.distribution.get(&"W".to_string()).unwrap(), WorkersCount {
        input: 2,
        output: 0,
        runtime: 0,
        mismatch_inout: true,
        mismatch_runtime: true,
    });
    assert!(!orca.distribution.contains_key(&"Z".to_string()));
    assert_eq!(orca.mismatched.len(), 3);
}

#[test]
fn failed_metrics_leave_the_metrics_empty() {
    let mut given = answers();
    given.metrics = Err(CombinedError::Timeout);
    let (_, orca) =
        complete_requests_v1("h".to_string(), Endpoint("::1".to_string(), 8877), given).unwrap();
    assert!(orca.metrics.is_empty());
    assert_eq!(orca.distribution.len(), 2);
}

#[test]
fn failed_identity_fails_the_probe() {
    let mut given = answers();
    given.info = Err(CombinedError::HyperError("refused".to_string()));
    given.state = Err(CombinedError::SerdeError("bad".to_string()));
    match complete_requests_v1("h".to_string(), Endpoint("::1".to_string(), 8877), given) {
        Err(CombinedError::HyperError(why)) => assert_eq!(why, "refused"),
        other => panic!("unexpected: {:?}", other),
    }
}

#[test]
fn failed_state_fails_the_probe() {
    let mut given = answers();
    given.state = Err(CombinedError::SerdeError("bad".to_string()));
    match complete_requests_v1("h".to_string(), Endpoint("::1".to_string(), 8877), given) {
        Err(CombinedError::SerdeError(why)) => assert_eq!(why, "bad"),
        other => panic!("unexpected: {:?}", other),
    }
}
