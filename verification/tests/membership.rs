use zorca::engine::{Cluster, ClusterInterface, UuidNodeInfo};
use zorca::resources::{Endpoint, NodeInfo, Resources};
use zorca::samples::make_dummy_cluster;
use zorca::strmap::StrMap;

fn node(hostname: &str, cpu: i64) -> NodeInfo {
    NodeInfo {
        hostname: hostname.to_string(),
        resources: Resources { cpu, mem: 1024 },
        endpoints: vec![Endpoint("::1".to_string(), 8877)],
    }
}

fn fetched(uuid: &str, hostname: &str) -> UuidNodeInfo {
    (uuid.to_string(), Some(node(hostname, 100)))
}

fn failed(uuid: &str) -> UuidNodeInfo {
    (uuid.to_string(), None)
}

fn key(text: &str) -> String {
    text.to_string()
}

#[test]
fn second_event_replaces_the_members() {
    let mut cluster: Cluster = StrMap::new();
    cluster.update(vec![fetched("a", "host-a"), fetched("b", "host-b")]);
    assert_eq!(cluster.len(), 2);
    assert!(cluster.contains_key(&key("a")));
    assert!(cluster.contains_key(&key("b")));

    cluster.update(vec![fetched("b", "host-b"), fetched("c", "host-c")]);
    assert_eq!(cluster.len(), 2);
    assert!(!cluster.contains_key(&key("a")));
    assert_eq!(cluster.get(&key("b")).unwrap().hostname, "host-b");
    assert_eq!(cluster.get(&key("c")).unwrap().hostname, "host-c");
}

#[test]
fn same_event_twice_changes_nothing() {
    let mut cluster: Cluster = StrMap::new();
    cluster.update(vec![fetched("a", "old-a"), fetched("x", "old-x")]);
    let event = || vec![fetched("a", "host-a"), failed("b"), fetched("c", "host-c")];
    cluster.update(event());
    let once: Vec<(String, String)> = (0..cluster.len())
        .map(|i| (cluster.key_at(i).clone(), cluster.value_at(i).hostname.clone()))
        .collect();
    cluster.update(event());
    let twice: Vec<(String, String)> = (0..cluster.len())
        .map(|i| (cluster.key_at(i).clone(), cluster.value_at(i).hostname.clone()))
        .collect();
    assert_eq!(once, twice);
    assert_eq!(once, vec![(key("a"), key("host-a")), (key("c"), key("host-c"))]);
}

#[test]
fn failed_fetch_leaves_the_uuid_out() {
    let mut cluster: Cluster = StrMap::new();
    cluster.update(vec![fetched("a", "host-a"), fetched("b", "host-b")]);
    cluster.update(vec![fetched("b", "host-b"), failed("c")]);
    assert_eq!(cluster.len(), 1);
    assert!(cluster.contains_key(&key("b")));
    assert!(!cluster.contains_key(&key("c")));
}

#[test]
fn failed_fetch_keeps_no_stale_descriptor() {
    let mut cluster: Cluster = StrMap::new();
    cluster.update(vec![fetched("a", "host-a"), fetched("b", "host-b")]);
    cluster.update(vec![failed("a"), fetched("b", "host-b")]);
    assert!(!cluster.contains_key(&key("a")));
    assert!(cluster.contains_key(&key("b")));
}

#[test]
fn fetched_descriptor_overwrites() {
    let mut cluster: Cluster = StrMap::new();
    cluster.update(vec![fetched("a", "before")]);
    cluster.update(vec![fetched("a", "after")]);
    assert_eq!(cluster.len(), 1);
    assert_eq!(cluster.get(&key("a")).unwrap().hostname, "after");
}

#[test]
fn last_outcome_of_a_repeated_uuid_decides() {
    let mut cluster: Cluster = StrMap::new();
    cluster.update(vec![fetched("a", "first"), failed("b"), fetched("a", "second"), fetched("b", "late")]);
    assert_eq!(cluster.get(&key("a")).unwrap().hostname, "second");
    assert_eq!(cluster.get(&key("b")).unwrap().hostname, "late");
    cluster.update(vec![fetched("a", "first"), failed("a")]);
    assert!(cluster.is_empty());
}

#[test]
fn empty_event_empties_the_snapshot() {
    let mut cluster = make_dummy_cluster();
    cluster.update(Vec::new());
    assert_eq!(cluster.len(), 0);
}

#[test]
fn remove_not_in_keeps_named_members() {
    let mut cluster = make_dummy_cluster();
    cluster.remove_not_in(&vec![failed("b"), fetched("e", "other"), failed("zz")]);
    assert_eq!(cluster.len(), 2);
    assert_eq!(cluster.get(&key("b")).unwrap().hostname, "host2.net");
    assert_eq!(cluster.get(&key("e")).unwrap().hostname, "host5.net");
}

#[test]
fn hosts_lists_every_member() {
    let cluster = make_dummy_cluster();
    let hosts = cluster.hosts();
    assert_eq!(hosts.len(), 6);
    let d = hosts.get(&key("d")).unwrap();
    assert_eq!(d.hostname, "host4.net");
    assert_eq!(d.endpoints.len(), 1);
    assert_eq!(d.endpoints[0].0, "::1");
    assert_eq!(d.endpoints[0].1, 8877);
}

#[test]
fn dummy_cluster_has_six_members() {
    let cluster = make_dummy_cluster();
    assert_eq!(cluster.len(), 6);
    let expected = [
        ("a", "host1.net", 100, 1024),
        ("b", "host2.net", 200, 2048),
        ("c", "host3.net", 300, 3072),
        ("d", "host4.net", 900, 12288),
        ("e", "host5.net", 800, 7168),
        ("f", "host6.net", 200, 1024),
    ];
    for (uuid, hostname, cpu, mem) in expected {
        let node = cluster.get(&key(uuid)).unwrap();
        assert_eq!(node.hostname, hostname);
        assert_eq!(node.resources, Resources { cpu, mem });
        assert_eq!(node.endpoints[0].host_str(), "::1");
    }
}
