//! Telemetry of one node agent and the worker statistics derived from it.

use crate::resources::Endpoint;
use crate::strmap::StrMap;
use vstd::prelude::*;
use vstd::string::*;

verus! {

pub const DEFAULT_WEB_SCHEME: &'static str = "http";

pub const DEFAULT_WEB_PORT: u16 = 8877;

pub const DEFAULT_STATUS_PORT: u16 = 9878;

/// The state in which an application counts as committed to run.
pub const STARTED_STATE: &'static str = "STARTED";

/// The handles a node agent serves.
#[derive(Debug)]
pub enum WebHandler {
    State,
    Info,
    Metrics,
}

/// The committed state of one application on a node.
#[derive(Debug)]
pub struct AppState {
    pub profile: String,
    pub state: String,
    pub workers: i64,
    pub state_version: i64,
    pub about_state: Option<String>,
    pub state_description: Option<String>,
    pub time_stamp: i64,
}

/// What a node has committed to run, by application.
#[derive(Debug)]
pub struct CommittedState {
    pub state: StrMap<AppState>,
    pub version: i64,
    pub timestamp: i64,
}

/// The target state of one application as it reached a node.
#[derive(Debug)]
pub struct InAppState {
    pub profile: String,
    pub workers: i64,
}

/// The target state that reached a node, by application.
#[derive(Debug)]
pub struct IncomingState {
    pub state: StrMap<InAppState>,
    pub timestamp: i64,
    pub version: i64,
}

impl IncomingState {
    /// The state of a node that no target has reached yet.
    pub fn new() -> (s: IncomingState)
        ensures
            s.state@ == Map::<Seq<char>, InAppState>::empty(),
            s.timestamp == 0,
            s.version == -1,
    {
        IncomingState { state: StrMap::new(), timestamp: 0, version: -1 }
    }
}

/// Workers that actually run, by application.
pub type WorkersDistribution = StrMap<i64>;

/// Identity of a node agent.
#[derive(Debug)]
pub struct Info {
    pub uptime: i64,
    pub version: String,
    pub uuid: String,
}

/// The three worker counts of one application on one node, and whether they
/// disagree.
#[derive(Debug, Clone, Copy, PartialEq, Eq, Structural)]
pub struct WorkersCount {
    pub input: i64,
    pub output: i64,
    pub runtime: i64,
    pub mismatch_inout: bool,
    pub mismatch_runtime: bool,
}

impl WorkersCount {
    /// All counts zero, nothing mismatched.
    pub fn new() -> (c: WorkersCount)
        ensures
            c == Self::counted(0, 0, 0),
    {
        WorkersCount { input: 0, output: 0, runtime: 0, mismatch_inout: false, mismatch_runtime: false }
    }

    /// The record for the given counts: the flags say whether the target
    /// differs from what is committed, and from what runs.
    pub open spec fn counted(input: i64, output: i64, runtime: i64) -> WorkersCount {
        WorkersCount {
            input,
            output,
            runtime,
            mismatch_inout: input != output,
            mismatch_runtime: input != runtime,
        }
    }

    /// The record for the given counts, with its mismatch flags.
    pub fn with_counts(input: i64, output: i64, runtime: i64) -> (c: WorkersCount)
        ensures
            c == Self::counted(input, output, runtime),
    {
        WorkersCount {
            input,
            output,
            runtime,
            mismatch_inout: input != output,
            mismatch_runtime: input != runtime,
        }
    }

    pub open spec fn spec_nonempty(&self) -> bool {
        !(self.input == 0 && self.output == 0 && self.runtime == 0)
    }

    /// Whether any of the three counts is not zero.
    #[verifier::when_used_as_spec(spec_nonempty)]
    pub fn nonempty(&self) -> (b: bool)
        ensures
            b == self.spec_nonempty(),
    {
        !(self.input == 0 && self.output == 0 && self.runtime == 0)
    }

    pub open spec fn spec_mismatched(&self) -> bool {
        self.mismatch_runtime || self.mismatch_inout
    }

    /// Whether either mismatch flag is set.
    #[verifier::when_used_as_spec(spec_mismatched)]
    pub fn mismatched(&self) -> (b: bool)
        ensures
            b == self.spec_mismatched(),
    {
        self.mismatch_runtime || self.mismatch_inout
    }
}

/// Worker counts by application.
pub type Distribution = StrMap<WorkersCount>;

/// Metric values by name.  A value is held as the bit pattern of its
/// double-precision number.
pub type Metrics = StrMap<u64>;

/// What one probe of a node agent brought back.
#[derive(Debug)]
pub struct Orca {
    pub endpoints: Vec<Endpoint>,
    pub info: Info,
    pub metrics: Metrics,
    pub mismatched: Distribution,
    pub distribution: Distribution,
    pub committed_state: CommittedState,
}

/// The telemetry of a node together with the second it was taken.
#[derive(Debug)]
pub struct OrcaRecord {
    pub orca: Orca,
    pub update_timestamp: u64,
}

/// Telemetry records by hostname.
pub type OrcasPod = StrMap<OrcaRecord>;

/// The target state as a node agent reports it.
#[derive(Debug)]
pub struct OrcaInState {
    pub state: StrMap<InAppState>,
    pub timestamp: u64,
    pub version: u64,
}

/// Whether `app` is committed in the started state.
pub open spec fn started(out: Map<Seq<char>, AppState>, app: Seq<char>) -> bool {
    out.contains_key(app) && out[app].state@ == STARTED_STATE@
}

/// Whether any of the three sources names `app`.
pub open spec fn listed(
    inc: Map<Seq<char>, InAppState>,
    out: Map<Seq<char>, AppState>,
    run: Map<Seq<char>, i64>,
    app: Seq<char>,
) -> bool {
    started(out, app) || inc.contains_key(app) || run.contains_key(app)
}

/// The counts of `app`: `output` is what is committed in the started state,
/// `input` the target that came in, `runtime` what runs; a source that does
/// not name the application counts as zero.
pub open spec fn expected_count(
    inc: Map<Seq<char>, InAppState>,
    out: Map<Seq<char>, AppState>,
    run: Map<Seq<char>, i64>,
    app: Seq<char>,
) -> WorkersCount {
    WorkersCount::counted(
        if inc.contains_key(app) {
            inc[app].workers
        } else {
            0
        },
        if started(out, app) {
            out[app].workers
        } else {
            0
        },
        if run.contains_key(app) {
            run[app]
        } else {
            0
        },
    )
}

/// The distribution that the three sources give: one record for every
/// application that any of them names.
pub open spec fn expected_distribution(
    inc: Map<Seq<char>, InAppState>,
    out: Map<Seq<char>, AppState>,
    run: Map<Seq<char>, i64>,
) -> Map<Seq<char>, WorkersCount> {
    Map::new(
        |app: Seq<char>| listed(inc, out, run, app),
        |app: Seq<char>| expected_count(inc, out, run, app),
    )
}

fn count_for(
    in_state: &IncomingState,
    out_state: &CommittedState,
    real_state: &WorkersDistribution,
    app: &String,
) -> (c: WorkersCount)
    ensures
        c == expected_count(in_state.state@, out_state.state@, real_state@, app@),
{
    let input = match in_state.state.get(app) {
        Some(record) => record.workers,
        None => 0,
    };
    let started_state = String::from_str(STARTED_STATE);
    let output = match out_state.state.get(app) {
        Some(record) => if record.state == started_state {
            record.workers
        } else {
            0
        },
        None => 0,
    };
    let runtime = match real_state.get(app) {
        Some(count) => *count,
        None => 0,
    };
    WorkersCount::with_counts(input, output, runtime)
}

/// Puts the committed, incoming and running worker counts of a node side by
/// side, application by application, and flags where they disagree.
pub fn make_workers_distribution(
    in_state: &IncomingState,
    out_state: &CommittedState,
    real_state: &WorkersDistribution,
) -> (distribution: Distribution)
    ensures
        distribution@ == expected_distribution(in_state.state@, out_state.state@, real_state@),
{
    let ghost inc = in_state.state@;
    let ghost out = out_state.state@;
    let ghost run = real_state@;
    let mut distribution: Distribution = StrMap::new();
    let started_state = String::from_str(STARTED_STATE);

    let committed = out_state.state.len();
    let mut i: usize = 0;
    while i < committed
        invariant
            i <= committed,
            committed == out_state.state.keys().len(),
            out_state.state.keyed(),
            inc == in_state.state@,
            out == out_state.state@,
            run == real_state@,
            started_state@ == STARTED_STATE@,
            forall|a: Seq<char>| #[trigger]
                distribution@.contains_key(a) ==> listed(inc, out, run, a) && distribution@[a]
                    == expected_count(inc, out, run, a),
            forall|j: int|
                0 <= j < i && started(out, #[trigger] out_state.state.keys()[j])
                    ==> distribution@.contains_key(out_state.state.keys()[j]),
        decreases committed - i,
    {
        let app = out_state.state.key_at(i);
        let record = out_state.state.value_at(i);
        if record.state == started_state {
            let count = count_for(in_state, out_state, real_state, app);
            distribution.insert(app.clone(), count);
        }
        i += 1;
    }

    let incoming = in_state.state.len();
    let mut i: usize = 0;
    while i < incoming
        invariant
            i <= incoming,
            incoming == in_state.state.keys().len(),
            in_state.state.keyed(),
            inc == in_state.state@,
            out == out_state.state@,
            run == real_state@,
            forall|a: Seq<char>| #[trigger]
                distribution@.contains_key(a) ==> listed(inc, out, run, a) && distribution@[a]
                    == expected_count(inc, out, run, a),
            forall|a: Seq<char>| started(out, a) ==> distribution@.contains_key(a),
            forall|j: int|
                0 <= j < i ==> distribution@.contains_key(#[trigger] in_state.state.keys()[j]),
        decreases incoming - i,
    {
        let app = in_state.state.key_at(i);
        let count = count_for(in_state, out_state, real_state, app);
        distribution.insert(app.clone(), count);
        i += 1;
    }

    let running = real_state.len();
    let mut i: usize = 0;
    while i < running
        invariant
            i <= running,
            running == real_state.keys().len(),
            real_state.keyed(),
            inc == in_state.state@,
            out == out_state.state@,
            run == real_state@,
            forall|a: Seq<char>| #[trigger]
                distribution@.contains_key(a) ==> listed(inc, out, run, a) && distribution@[a]
                    == expected_count(inc, out, run, a),
            forall|a: Seq<char>| started(out, a) ==> distribution@.contains_key(a),
            forall|a: Seq<char>| inc.contains_key(a) ==> distribution@.contains_key(a),
            forall|j: int| 0 <= j < i ==> distribution@.contains_key(#[trigger] real_state.keys()[j]),
        decreases running - i,
    {
        let app = real_state.key_at(i);
        let count = count_for(in_state, out_state, real_state, app);
        distribution.insert(app.clone(), count);
        i += 1;
    }
    distribution
}

/// The part of a distribution whose records carry a mismatch flag.
pub open spec fn mismatched_part(d: Map<Seq<char>, WorkersCount>) -> Map<Seq<char>, WorkersCount> {
    d.restrict(Set::new(|app: Seq<char>| d.contains_key(app) && d[app].mismatched()))
}

/// The applications of `d` whose target differs from what is committed or
/// from what runs.
pub fn make_mismatched_list(d: &Distribution) -> (mismatched: Distribution)
    ensures
        mismatched@ == mismatched_part(d@),
{
    let mut mismatched: Distribution = StrMap::new();
    let n = d.len();
    let mut i: usize = 0;
    while i < n
        invariant
            i <= n,
            n == d.keys().len(),
            d.keyed(),
            forall|a: Seq<char>| #[trigger]
                mismatched@.contains_key(a) ==> d@.contains_key(a) && d@[a].mismatched()
                    && mismatched@[a] == d@[a],
            forall|j: int|
                0 <= j < i && d@[#[trigger] d.keys()[j]].mismatched() ==> mismatched@.contains_key(
                    d.keys()[j],
                ),
        decreases n - i,
    {
        let app = d.key_at(i);
        let count = d.value_at(i);
        if count.mismatched() {
            mismatched.insert(app.clone(), *count);
        }
        i += 1;
    }
    mismatched
}

/// Where an application runs: its worker counts by hostname, and the total of
/// the committed workers over those hosts.
#[derive(Debug)]
pub struct AppStat {
    pub total_workers: i64,
    pub hosts: StrMap<WorkersCount>,
}

impl AppStat {
    /// The statistics of an application that runs nowhere.
    pub fn new() -> (s: AppStat)
        ensures
            s.total_workers == 0,
            s.hosts@ == Map::<Seq<char>, WorkersCount>::empty(),
            s.hosts.keys() == Seq::<Seq<char>>::empty(),
    {
        AppStat { total_workers: 0, hosts: StrMap::new() }
    }
}

/// Statistics by application.
pub type Apps = StrMap<AppStat>;

/// Whether the pod has a record of `host` in which `app` has a count that is
/// not all zero.
pub open spec fn runs_on(pod: Map<Seq<char>, OrcaRecord>, host: Seq<char>, app: Seq<char>) -> bool {
    &&& pod.contains_key(host)
    &&& pod[host].orca.distribution@.contains_key(app)
    &&& pod[host].orca.distribution@[app].nonempty()
}

/// The sum of the committed workers over the first `upto` hosts.
pub open spec fn output_sum(hosts: StrMap<WorkersCount>, upto: int) -> int
    decreases upto,
{
    if upto <= 0 {
        0
    } else {
        output_sum(hosts, upto - 1) + hosts@[hosts.keys()[upto - 1]].output
    }
}

/// `total`, held to the range of `i64`.
pub open spec fn clamped(total: int) -> i64 {
    if total > i64::MAX {
        i64::MAX
    } else if total < i64::MIN {
        i64::MIN
    } else {
        total as i64
    }
}

/// The committed workers of an application over all its hosts, held to the
/// range of `i64`.
pub open spec fn total_of(hosts: StrMap<WorkersCount>) -> i64 {
    clamped(output_sum(hosts, hosts.keys().len() as int))
}

/// Adds up the committed workers over the hosts.
pub fn total_output(hosts: &StrMap<WorkersCount>) -> (total: i64)
    ensures
        total == total_of(*hosts),
{
    let n = hosts.len();
    let mut sum: i128 = 0;
    let mut i: usize = 0;
    while i < n
        invariant
            i <= n,
            n == hosts.keys().len(),
            sum == output_sum(*hosts, i as int),
            -(i as int) * 0x8000_0000_0000_0000 <= sum <= (i as int) * 0x8000_0000_0000_0000,
        decreases n - i,
    {
        let count = hosts.value_at(i);
        sum = sum + count.output as i128;
        i += 1;
    }
    if sum > i64::MAX as i128 {
        i64::MAX
    } else if sum < i64::MIN as i128 {
        i64::MIN
    } else {
        sum as i64
    }
}

/// Whether `apps` are the statistics that `pod` gives.  An application is
/// listed exactly if some host runs it; it then lists exactly the hosts that
/// run it, each with that host's counts, and its total is the sum of their
/// committed workers.
pub open spec fn aggregates(apps: Map<Seq<char>, AppStat>, pod: Map<Seq<char>, OrcaRecord>) -> bool {
    &&& forall|app: Seq<char>| #[trigger]
        apps.contains_key(app) <==> exists|host: Seq<char>| runs_on(pod, host, app)
    &&& forall|app: Seq<char>, host: Seq<char>|
        #![trigger apps[app].hosts@.contains_key(host)]
        apps.contains_key(app) ==> (apps[app].hosts@.contains_key(host) <==> runs_on(pod, host, app))
    &&& forall|app: Seq<char>, host: Seq<char>|
        #![trigger runs_on(pod, host, app)]
        runs_on(pod, host, app) ==> apps.contains_key(app) && apps[app].hosts@[host]
            == pod[host].orca.distribution@[app]
    &&& forall|app: Seq<char>| #[trigger]
        apps.contains_key(app) ==> apps[app].total_workers == total_of(apps[app].hosts)
}

/// The statistics by application, recomputed from the telemetry pod.
pub trait AppsTrait: View<V = Map<Seq<char>, AppStat>> + Sized {
    /// Recomputes the statistics from `pod`; nothing of the earlier
    /// statistics is kept.
    fn update(&mut self, pod: &OrcasPod)
        ensures
            aggregates(final(self)@, pod@),
    ;
}

/// Whether `key` stands at one of the first `upto` places of `keys`.
spec fn among(keys: Seq<Seq<char>>, upto: int, key: Seq<char>) -> bool {
    exists|j: int| 0 <= j < upto && j < keys.len() && #[trigger] keys[j] == key
}

/// Whether the pair was reached by a walk over the pod that stands at host
/// `row` and, within it, at application `col`.
spec fn gathered(pod: &OrcasPod, row: int, col: int, host: Seq<char>, app: Seq<char>) -> bool {
    &&& runs_on(pod@, host, app)
    &&& (among(pod.keys(), row, host) || (0 <= row < pod.keys().len() && host == pod.keys()[row]
        && among(pod@[host].orca.distribution.keys(), col, app)))
}

spec fn collected(apps: Map<Seq<char>, AppStat>, pod: &OrcasPod, row: int, col: int) -> bool {
    &&& forall|app: Seq<char>, host: Seq<char>|
        #![trigger gathered(pod, row, col, host, app)]
        gathered(pod, row, col, host, app) ==> apps.contains_key(app) && apps[app].hosts@.contains_key(
            host,
        ) && apps[app].hosts@[host] == pod@[host].orca.distribution@[app]
    &&& forall|app: Seq<char>, host: Seq<char>|
        #![trigger apps[app].hosts@.contains_key(host)]
        apps.contains_key(app) && apps[app].hosts@.contains_key(host) ==> gathered(
            pod,
            row,
            col,
            host,
            app,
        )
    &&& forall|app: Seq<char>| #[trigger]
        apps.contains_key(app) ==> exists|host: Seq<char>| apps[app].hosts@.contains_key(host)
}

proof fn lemma_gathered_next(pod: &OrcasPod, row: int, col: int)
    requires
        0 <= row < pod.keys().len(),
        0 <= col < pod@[pod.keys()[row]].orca.distribution.keys().len(),
    ensures
        forall|host: Seq<char>, app: Seq<char>|
            #![trigger gathered(pod, row, col + 1, host, app)]
            gathered(pod, row, col + 1, host, app) <==> gathered(pod, row, col, host, app) || (host
                == pod.keys()[row] && app == pod@[pod.keys()[row]].orca.distribution.keys()[col]
                && runs_on(pod@, host, app)),
{
    let here = pod.keys()[row];
    let names = pod@[here].orca.distribution.keys();
    assert forall|app: Seq<char>| among(names, col + 1, app) <==> among(names, col, app) || app
        == names[col] by {}
}

proof fn lemma_gathered_row(pod: &OrcasPod, row: int)
    requires
        0 <= row < pod.keys().len(),
        pod@[pod.keys()[row]].orca.distribution.keyed(),
    ensures
        forall|host: Seq<char>, app: Seq<char>|
            #![trigger gathered(pod, row + 1, 0, host, app)]
            gathered(pod, row + 1, 0, host, app) <==> gathered(
                pod,
                row,
                pod@[pod.keys()[row]].orca.distribution.keys().len() as int,
                host,
                app,
            ),
{
    let here = pod.keys()[row];
    let keys = pod.keys();
    assert forall|host: Seq<char>| among(keys, row + 1, host) <==> among(keys, row, host) || host
        == here by {}
}

impl AppsTrait for Apps {
    fn update(&mut self, pod: &OrcasPod) {
        self.clear();
        let hosts = pod.len();
        let mut row: usize = 0;
        while row < hosts
            invariant
                row <= hosts,
                hosts == pod.keys().len(),
                pod.keyed(),
                collected(self@, pod, row as int, 0),
            decreases hosts - row,
        {
            let host = pod.key_at(row);
            let record = pod.value_at(row);
            let apps = record.orca.distribution.len();
            let mut col: usize = 0;
            while col < apps
                invariant
                    col <= apps,
                    row < hosts,
                    hosts == pod.keys().len(),
                    pod.keyed(),
                    host@ == pod.keys()[row as int],
                    *record == pod@[host@],
                    apps == record.orca.distribution.keys().len(),
                    record.orca.distribution.keyed(),
                    collected(self@, pod, row as int, col as int),
                decreases apps - col,
            {
                let app = record.orca.distribution.key_at(col);
                let count = *record.orca.distribution.value_at(col);
                let ghost before = self@;
                proof {
                    lemma_gathered_next(pod, row as int, col as int);
                }
                if count.nonempty() {
                    let mut stat = match self.remove(app) {
                        Some(s) => s,
                        None => AppStat::new(),
                    };
                    stat.hosts.insert(host.clone(), count);
                    self.insert(app.clone(), stat);
                    proof {
                        let now = self@;
                        assert forall|a: Seq<char>, h: Seq<char>|
                            #![trigger gathered(pod, row as int, col + 1, h, a)]
                            gathered(pod, row as int, col + 1, h, a) implies now.contains_key(a)
                            && now[a].hosts@.contains_key(h) && now[a].hosts@[h]
                            == pod@[h].orca.distribution@[a] by {}
                        assert forall|a: Seq<char>, h: Seq<char>|
                            #![trigger now[a].hosts@.contains_key(h)]
                            now.contains_key(a) && now[a].hosts@.contains_key(h) implies gathered(
                            pod,
                            row as int,
                            col + 1,
                            h,
                            a,
                        ) by {}
                        assert forall|a: Seq<char>| #[trigger] now.contains_key(a) implies exists|
                            h: Seq<char>,
                        | now[a].hosts@.contains_key(h) by {
                            if a == app@ {
                                assert(now[a].hosts@.contains_key(host@));
                            } else {
                                let h = choose|h: Seq<char>| before[a].hosts@.contains_key(h);
                                assert(now[a].hosts@.contains_key(h));
                            }
                        }
                    }
                } else {
                    proof {
                        assert forall|a: Seq<char>, h: Seq<char>|
                            #![trigger gathered(pod, row as int, col + 1, h, a)]
                            gathered(pod, row as int, col + 1, h, a) implies gathered(
                            pod,
                            row as int,
                            col as int,
                            h,
                            a,
                        ) by {}
                        assert forall|a: Seq<char>, h: Seq<char>|
                            #![trigger before[a].hosts@.contains_key(h)]
                            before.contains_key(a) && before[a].hosts@.contains_key(h) implies gathered(
                            pod,
                            row as int,
                            col + 1,
                            h,
                            a,
                        ) by {}
                    }
                }
                col += 1;
            }
            proof {
                lemma_gathered_row(pod, row as int);
                let now = self@;
                assert forall|a: Seq<char>, h: Seq<char>|
                    #![trigger now[a].hosts@.contains_key(h)]
                    now.contains_key(a) && now[a].hosts@.contains_key(h) implies gathered(
                    pod,
                    row + 1,
                    0,
                    h,
                    a,
                ) by {}
            }
            row += 1;
        }
        let ghost staged = self@;
        proof {
            assert forall|a: Seq<char>, h: Seq<char>| runs_on(pod@, h, a) implies gathered(
                pod,
                hosts as int,
                0,
                h,
                a,
            ) by {}
        }
        let listed = self.len();
        let ghost names = self.keys();
        let mut i: usize = 0;
        while i < listed
            invariant
                i <= listed,
                listed == names.len(),
                names == self.keys(),
                self.keyed(),
                forall|a: Seq<char>| self@.contains_key(a) <==> staged.contains_key(a),
                forall|a: Seq<char>| #[trigger]
                    staged.contains_key(a) ==> self@[a].hosts == staged[a].hosts,
                forall|j: int|
                    0 <= j < i ==> self@[#[trigger] names[j]].total_workers == total_of(
                        self@[names[j]].hosts,
                    ),
            decreases listed - i,
        {
            let stat = self.replace_at(i, AppStat::new());
            let total = total_output(&stat.hosts);
            let counted = AppStat { total_workers: total, hosts: stat.hosts };
            let _ = self.replace_at(i, counted);
            proof {
                assert forall|j: int| 0 <= j < i + 1 implies self@[#[trigger] names[j]].total_workers
                    == total_of(self@[names[j]].hosts) by {}
            }
            i += 1;
        }
        proof {
            let now = self@;
            assert forall|a: Seq<char>| #[trigger] now.contains_key(a) implies now[a].total_workers
                == total_of(now[a].hosts) by {}
            assert forall|a: Seq<char>| #[trigger] now.contains_key(a) implies exists|h: Seq<char>|
                runs_on(pod@, h, a) by {}
            assert forall|a: Seq<char>, h: Seq<char>|
                #![trigger now[a].hosts@.contains_key(h)]
                now.contains_key(a) implies (now[a].hosts@.contains_key(h) <==> runs_on(pod@, h, a)) by {}
            assert forall|a: Seq<char>, h: Seq<char>|
                #![trigger runs_on(pod@, h, a)]
                runs_on(pod@, h, a) implies now.contains_key(a) && now[a].hosts@[h]
                == pod@[h].orca.distribution@[a] by {}
        }
    }
}

/// The statistics by application that the pod gives.
pub fn aggregate(pod: &OrcasPod) -> (apps: Apps)
    ensures
        aggregates(apps@, pod@),
{
    let mut apps: Apps = StrMap::new();
    apps.update(pod);
    apps
}

/// An application whose counts are all zero on every host that reports it
/// is not listed at all.
pub proof fn lemma_idle_application_is_left_out(
    apps: Map<Seq<char>, AppStat>,
    pod: Map<Seq<char>, OrcaRecord>,
    app: Seq<char>,
)
    requires
        aggregates(apps, pod),
        forall|host: Seq<char>|
            pod.contains_key(host) && #[trigger] pod[host].orca.distribution@.contains_key(app)
                ==> !pod[host].orca.distribution@[app].nonempty(),
    ensures
        !apps.contains_key(app),
{
}

/// A record carries a mismatch flag exactly if its target differs from what
/// is committed or from what runs.
pub proof fn lemma_mismatch_flags(input: i64, output: i64, runtime: i64)
    ensures
        WorkersCount::counted(input, output, runtime).mismatch_inout == (input != output),
        WorkersCount::counted(input, output, runtime).mismatch_runtime == (input != runtime),
        WorkersCount::counted(input, output, runtime).mismatched() == (input != output || input
            != runtime),
{
}

} // verus!
