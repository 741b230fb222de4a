use zorca::orca::{
    aggregate, total_output, AppStat, Apps, AppsTrait, CommittedState, Distribution, Info, Orca, OrcaRecord,
    OrcasPod, WorkersCount,
};
use zorca::strmap::StrMap;

fn record(counts: Vec<(&str, WorkersCount)>) -> OrcaRecord {
    let mut distribution: Distribution = StrMap::new();
    for (app, count) in counts {
        distribution.insert(app.to_string(), count);
    }
    OrcaRecord {
        orca: Orca {
            endpoints: Vec::new(),
            info: Info { uptime: 0, version: "v".to_string(), uuid: "u".to_string() },
            metrics: StrMap::new(),
            mismatched: StrMap::new(),
            distribution,
            committed_state: CommittedState { state: StrMap::new(), version: 0, timestamp: 0 },
        },
        update_timestamp: 1,
    }
}

fn key(text: &str) -> String {
    text.to_string()
}

#[test]
fn mismatch_flags_of_given_counts() {
    let x = WorkersCount::with_counts(5, 5, 3);
    assert!(!x.mismatch_inout);
    assert!(x.mismatch_runtime);
    assert!(x.mismatched());
    let even = WorkersCount::with_counts(4, 4, 4);
    assert!(!even.mismatched());
    let zero = WorkersCount::new();
    assert_eq!(zero, WorkersCount::with_counts(0, 0, 0));
    assert!(!zero.nonempty());
    assert!(WorkersCount::with_counts(0, 0, -1).nonempty());
}

#[test]
fn idle_application_is_left_out() {
    let mut pod: OrcasPod = StrMap::new();
    pod.insert(key("h1"), record(vec![("idle", WorkersCount::new()), ("busy", WorkersCount::with_counts(1, 2, 3))]));
    pod.insert(key("h2"), record(vec![("idle", WorkersCount::new())]));
    let mut apps: Apps = StrMap::new();
    apps.update(&pod);
    assert_eq!(apps.len(), 1);
    assert!(!apps.contains_key(&key("idle")));
    assert!(apps.contains_key(&key("busy")));
}

#[test]
fn application_lists_its_hosts_and_total() {
    let mut pod: OrcasPod = StrMap::new();
    pod.insert(key("h1"), record(vec![("X", WorkersCount::with_counts(5, 5, 3)), ("Y", WorkersCount::with_counts(0, 2, 0))]));
    pod.insert(key("h2"), record(vec![("X", WorkersCount::with_counts(1, 7, 1)), ("Y", WorkersCount::new())]));
    pod.insert(key("h3"), record(vec![("X", WorkersCount::with_counts(0, 0, 9))]));
    let mut apps: Apps = StrMap::new();
    apps.insert(key("gone"), AppStat::new());
    apps.update(&pod);

    assert_eq!(apps.len(), 2);
    let x = apps.get(&key("X")).unwrap();
    assert_eq!(x.total_workers, 12);
    assert_eq!(x.hosts.len(), 3);
    assert_eq!(*x.hosts.get(&key("h1")).unwrap(), WorkersCount::with_counts(5, 5, 3));
    assert_eq!(*x.hosts.get(&key("h2")).unwrap(), WorkersCount::with_counts(1, 7, 1));
    assert_eq!(*x.hosts.get(&key("h3")).unwrap(), WorkersCount::with_counts(0, 0, 9));
    let y = apps.get(&key("Y")).unwrap();
    assert_eq!(y.total_workers, 2);
    assert_eq!(y.hosts.len(), 1);
    assert!(y.hosts.contains_key(&key("h1")));
}

#[test]
fn statistics_are_a_function_of_the_pod() {
    let mut pod: OrcasPod = StrMap::new();
    pod.insert(key("h1"), record(vec![("X", WorkersCount::with_counts(2, 3, 4))]));
    let apps = aggregate(&pod);
    assert_eq!(apps.len(), 1);
    assert_eq!(apps.get(&key("X")).unwrap().total_workers, 3);
    let again = aggregate(&pod);
    assert_eq!(again.get(&key("X")).unwrap().total_workers, 3);
    assert!(aggregate(&StrMap::new()).is_empty());
}

#[test]
fn empty_pod_gives_no_statistics() {
    let pod: OrcasPod = StrMap::new();
    let mut apps: Apps = StrMap::new();
    apps.insert(key("left"), AppStat::new());
    apps.update(&pod);
    assert!(apps.is_empty());
}

#[test]
fn total_is_held_to_the_range() {
    let mut hosts: StrMap<WorkersCount> = StrMap::new();
    assert_eq!(total_output(&hosts), 0);
    hosts.insert(key("a"), WorkersCount::with_counts(0, i64::MAX, 0));
    hosts.insert(key("b"), WorkersCount::with_counts(0, 10, 0));
    assert_eq!(total_output(&hosts), i64::MAX);
    hosts.insert(key("c"), WorkersCount::with_counts(0, -20, 0));
    assert_eq!(total_output(&hosts), i64::MAX - 10);
    let mut low: StrMap<WorkersCount> = StrMap::new();
    low.insert(key("a"), WorkersCount::with_counts(0, i64::MIN, 0));
    low.insert(key("b"), WorkersCount::with_counts(0, -1, 0));
    assert_eq!(total_output(&low), i64::MIN);
}

#[test]
fn new_statistics_are_empty() {
    let stat = AppStat::new();
    assert_eq!(stat.total_workers, 0);
    assert!(stat.hosts.is_empty());
}
