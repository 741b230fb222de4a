use zorca::engine::{
    subscription, Action, Cluster, ClusterInterface, Input, Subscription, SUBSCRIBE_QUEUE_SIZE,
};
use zorca::errors::{CombinedError, ErrorKind};
use zorca::resources::{NodeInfo, Resources};
use zorca::strmap::StrMap;

fn node(hostname: &str) -> NodeInfo {
    NodeInfo { hostname: hostname.to_string(), resources: Resources { cpu: 1, mem: 2 }, endpoints: Vec::new() }
}

fn uuids(names: &[&str]) -> Vec<String> {
    names.iter().map(|n| n.to_string()).collect()
}

fn listening(path: &str, header: Option<String>) -> Subscription {
    let mut run = subscription(path);
    assert!(matches!(run.step(Input::Start), Action::NeedHeader));
    assert!(matches!(run.step(Input::Header(header)), Action::Subscribe { .. }));
    run
}

#[test]
fn run_starts_by_asking_for_the_header() {
    let mut run = Subscription::new("/darkvoice/nodes");
    assert!(matches!(run.step(Input::Start), Action::NeedHeader));
    match run.step(Input::Header(Some("TVM tok".to_string()))) {
        Action::Subscribe { path, headers } => {
            assert_eq!(path, "/darkvoice/nodes");
            let headers = headers.unwrap();
            assert_eq!(headers.len(), 1);
            assert_eq!(headers[0].name, b"authorization".to_vec());
            assert_eq!(headers[0].data, b"TVM tok".to_vec());
        }
        other => panic!("unexpected: {:?}", other),
    }
}

#[test]
fn open_mode_subscribes_without_headers() {
    let mut run = subscription("/nodes");
    run.step(Input::Start);
    match run.step(Input::Header(None)) {
        Action::Subscribe { path, headers } => {
            assert_eq!(path, "/nodes");
            assert!(headers.is_none());
        }
        other => panic!("unexpected: {:?}", other),
    }
}

#[test]
fn event_is_resolved_uuid_by_uuid() {
    let mut run = listening("/nodes", None);
    assert!(matches!(run.step(Input::Event((7, uuids(&["a", "b", "c"])))), Action::NeedHeader));
    let requests = match run.step(Input::Header(Some("TVM t".to_string()))) {
        Action::Fetch { requests } => requests,
        other => panic!("unexpected: {:?}", other),
    };
    assert_eq!(requests.len(), 3);
    assert_eq!(requests[0].uuid, "a");
    assert_eq!(requests[0].path, "/nodes/a");
    assert_eq!(requests[2].uuid, "c");
    assert_eq!(requests[2].path, "/nodes/c");
    for request in &requests {
        let headers = request.headers.as_ref().unwrap();
        assert_eq!(headers[0].data, b"TVM t".to_vec());
    }

    let outcomes = vec![
        Ok(Some(node("host-a"))),
        Err(CombinedError::CocaineError("no node".to_string())),
        Ok(None),
    ];
    let nodes = match run.step(Input::Descriptors(outcomes)) {
        Action::Commit { nodes } => nodes,
        other => panic!("unexpected: {:?}", other),
    };
    assert_eq!(nodes.len(), 3);
    assert_eq!(nodes[0].0, "a");
    assert_eq!(nodes[0].1.as_ref().unwrap().hostname, "host-a");
    assert_eq!(nodes[1].0, "b");
    assert!(nodes[1].1.is_none());
    assert_eq!(nodes[2].0, "c");
    assert!(nodes[2].1.is_none());

    let mut cluster: Cluster = StrMap::new();
    cluster.update(nodes);
    assert_eq!(cluster.len(), 1);
    assert!(cluster.contains_key(&"a".to_string()));

    assert!(matches!(run.step(Input::Event((8, uuids(&[])))), Action::NeedHeader));
}

#[test]
fn missing_outcomes_count_as_failed() {
    let mut run = listening("/n", None);
    run.step(Input::Event((1, uuids(&["a", "b"]))));
    run.step(Input::Header(None));
    match run.step(Input::Descriptors(vec![Ok(Some(node("h")))])) {
        Action::Commit { nodes } => {
            assert_eq!(nodes.len(), 2);
            assert!(nodes[0].1.is_some());
            assert_eq!(nodes[1].0, "b");
            assert!(nodes[1].1.is_none());
        }
        other => panic!("unexpected: {:?}", other),
    }
    run.step(Input::Event((2, uuids(&["z"]))));
    run.step(Input::Header(None));
    match run.step(Input::Descriptors(vec![Ok(None), Ok(Some(node("extra")))])) {
        Action::Commit { nodes } => {
            assert_eq!(nodes.len(), 1);
            assert_eq!(nodes[0].0, "z");
            assert!(nodes[0].1.is_none());
        }
        other => panic!("unexpected: {:?}", other),
    }
}

#[test]
fn failure_stops_the_run() {
    let mut run = listening("/n", None);
    match run.step(Input::Failed(CombinedError::CocaineError("stream closed".to_string()))) {
        Action::Stop { error } => {
            assert_eq!(error.kind(), ErrorKind::Coordination);
            assert!(error.kind().is_fatal());
        }
        other => panic!("unexpected: {:?}", other),
    }
    assert!(matches!(run.step(Input::Start), Action::Nothing));
    assert!(matches!(run.step(Input::Event((1, uuids(&["a"])))), Action::Nothing));
    assert!(matches!(run.step(Input::Failed(CombinedError::Timeout)), Action::Nothing));
}

#[test]
fn credential_failure_stops_the_run_in_every_phase() {
    let failure = || Input::Failed(CombinedError::CredentialError("denied".to_string()));
    let mut idle = subscription("/n");
    assert!(matches!(idle.step(failure()), Action::Stop { .. }));
    let mut authorizing = subscription("/n");
    authorizing.step(Input::Start);
    assert!(matches!(authorizing.step(failure()), Action::Stop { .. }));
    let mut preparing = listening("/n", None);
    preparing.step(Input::Event((1, uuids(&["a"]))));
    assert!(matches!(preparing.step(failure()), Action::Stop { .. }));
    let mut fetching = listening("/n", None);
    fetching.step(Input::Event((1, uuids(&["a"]))));
    fetching.step(Input::Header(None));
    match fetching.step(Input::Failed(CombinedError::QueueSendError((3, uuids(&["q"]))))) {
        Action::Stop { error } => assert_eq!(error.kind(), ErrorKind::Queue),
        other => panic!("unexpected: {:?}", other),
    }
}

#[test]
fn input_out_of_turn_changes_nothing() {
    let mut run = subscription("/n");
    assert!(matches!(run.step(Input::Header(None)), Action::Nothing));
    assert!(matches!(run.step(Input::Event((1, uuids(&["a"])))), Action::Nothing));
    assert!(matches!(run.step(Input::Descriptors(Vec::new())), Action::Nothing));
    assert!(matches!(run.step(Input::Start), Action::NeedHeader));
    assert!(matches!(run.step(Input::Start), Action::Nothing));
    assert!(matches!(run.step(Input::Header(None)), Action::Subscribe { .. }));
    assert!(matches!(run.step(Input::Header(None)), Action::Nothing));
    assert!(matches!(run.step(Input::Descriptors(Vec::new())), Action::Nothing));
}

#[test]
fn queue_holds_a_thousand_events() {
    assert_eq!(SUBSCRIBE_QUEUE_SIZE, 1024);
}
