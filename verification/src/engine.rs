//! Cluster membership and the collection of node telemetry.

use crate::clock::unix_now;
use crate::errors::CombinedError;
use crate::orca::{
    expected_distribution, make_mismatched_list, make_workers_distribution, mismatched_part,
    CommittedState, InAppState, IncomingState, Info, Metrics, Orca, OrcaRecord, OrcasPod,
    WorkersDistribution, DEFAULT_WEB_PORT, DEFAULT_WEB_SCHEME,
};
use crate::text::{decimal, decimal_text};
use crate::resources::{copy_endpoints, Endpoint, NodeInfo};
use crate::strmap::StrMap;
use vstd::prelude::*;
use vstd::string::*;
use vstd::utf8::encode_utf8;

verus! {

/// How many events of the subscription may wait to be processed.
pub const SUBSCRIBE_QUEUE_SIZE: usize = 1024;

/// The seconds over which the probes of one cycle are spread.
pub const GATHER_INTERVAL_SECS: u64 = 120;

/// The seconds for which a telemetry record is kept.
pub const ONE_HOUR_IN_SECS: u64 = 3600;

/// One event of the children subscription: its version and the uuids that
/// are present.
pub type SubscribeMessage = (i64, Vec<String>);

/// The membership snapshot: descriptors by uuid.
pub type Cluster = StrMap<NodeInfo>;

/// A uuid of an event with the descriptor that was fetched for it, if the
/// fetch succeeded.
pub type UuidNodeInfo = (String, Option<NodeInfo>);

/// Where a member can be reached.
#[derive(Debug)]
pub struct NetInfo {
    pub hostname: String,
    pub endpoints: Vec<Endpoint>,
}

/// The uuids that an event names.
pub open spec fn named(nodes: Seq<UuidNodeInfo>) -> Set<Seq<char>> {
    Set::new(|uuid: Seq<char>| exists|i: int| 0 <= i < nodes.len() && #[trigger] nodes[i].0@ == uuid)
}

/// The snapshot after the outcomes of `nodes` were applied one after the
/// other: a fetched descriptor is stored under its uuid, a failed fetch
/// leaves its uuid without an entry.
pub open spec fn applied(snapshot: Map<Seq<char>, NodeInfo>, nodes: Seq<UuidNodeInfo>) -> Map<
    Seq<char>,
    NodeInfo,
>
    decreases nodes.len(),
{
    if nodes.len() == 0 {
        snapshot
    } else {
        let earlier = applied(snapshot, nodes.drop_last());
        match nodes.last().1 {
            Some(info) => earlier.insert(nodes.last().0@, info),
            None => earlier.remove(nodes.last().0@),
        }
    }
}

/// The snapshot after an event: members that the event does not name are
/// gone, and the outcomes of the event are applied to the rest.
pub open spec fn reconciled(snapshot: Map<Seq<char>, NodeInfo>, nodes: Seq<UuidNodeInfo>) -> Map<
    Seq<char>,
    NodeInfo,
> {
    applied(snapshot.restrict(named(nodes)), nodes)
}

/// Whether `net` says where the member `node` can be reached.
pub open spec fn reaches(net: NetInfo, node: NodeInfo) -> bool {
    net.hostname == node.hostname && net.endpoints@ == node.endpoints@
}

/// What the membership snapshot offers to the tracker and the collector.
pub trait ClusterInterface: View<V = Map<Seq<char>, NodeInfo>> + Sized {
    /// Brings the snapshot in line with one event: members that the event
    /// does not name leave, a fetched descriptor is stored under its uuid in
    /// place of what was there, and a uuid whose fetch failed has no entry.
    fn update(&mut self, nodes: Vec<UuidNodeInfo>)
        ensures
            final(self)@ == reconciled(old(self)@, nodes@),
    ;

    /// Where each member can be reached, by uuid.
    fn hosts(&self) -> (nets: StrMap<NetInfo>)
        ensures
            nets@.dom() == self@.dom(),
            forall|uuid: Seq<char>| #[trigger]
                self@.contains_key(uuid) ==> reaches(nets@[uuid], self@[uuid]),
    ;

    /// Drops the members that the event does not name; the others stay as
    /// they are.
    fn remove_not_in(&mut self, nodes: &Vec<UuidNodeInfo>)
        ensures
            final(self)@ == old(self)@.restrict(named(nodes@)),
    ;
}

fn names_uuid(nodes: &Vec<UuidNodeInfo>, uuid: &String) -> (found: bool)
    ensures
        found == named(nodes@).contains(uuid@),
{
    let mut j: usize = 0;
    while j < nodes.len()
        invariant
            j <= nodes.len(),
            forall|i: int| 0 <= i < j ==> #[trigger] nodes@[i].0@ != uuid@,
        decreases nodes.len() - j,
    {
        if nodes[j].0 == *uuid {
            return true;
        }
        j += 1;
    }
    false
}

impl ClusterInterface for Cluster {
    fn remove_not_in(&mut self, nodes: &Vec<UuidNodeInfo>) {
        let n = self.len();
        let mut keep: Vec<bool> = Vec::new();
        let mut i: usize = 0;
        while i < n
            invariant
                i <= n,
                n == self.keys().len(),
                keep@.len() == i,
                forall|j: int| 0 <= j < i ==> keep@[j] == named(nodes@).contains(#[trigger] self.keys()[j]),
            decreases n - i,
        {
            let present = names_uuid(nodes, self.key_at(i));
            keep.push(present);
            i += 1;
        }
        self.retain_marked(&keep);
    }

    fn update(&mut self, nodes: Vec<UuidNodeInfo>) {
        self.remove_not_in(&nodes);
        let ghost start = self@;
        let ghost all = nodes@;
        for entry in it: nodes
            invariant
                it.seq() == all,
                self@ == applied(start, all.take(it.index() as int)),
        {
            proof {
                let upto = it.index() as int;
                assert(all.take(upto + 1).drop_last() =~= all.take(upto));
            }
            let (uuid, info) = entry;
            match info {
                Some(info) => {
                    self.insert(uuid, info);
                },
                None => {
                    let _ = self.remove(&uuid);
                },
            }
        }
        proof {
            assert(all.take(all.len() as int) =~= all);
        }
    }

    fn hosts(&self) -> (nets: StrMap<NetInfo>) {
        let mut nets: StrMap<NetInfo> = StrMap::new();
        let n = self.len();
        let mut i: usize = 0;
        while i < n
            invariant
                i <= n,
                n == self.keys().len(),
                self.keyed(),
                forall|uuid: Seq<char>| #[trigger]
                    nets@.contains_key(uuid) ==> self@.contains_key(uuid) && reaches(
                        nets@[uuid],
                        self@[uuid],
                    ),
                forall|j: int| 0 <= j < i ==> nets@.contains_key(#[trigger] self.keys()[j]),
            decreases n - i,
        {
            let uuid = self.key_at(i);
            let node = self.value_at(i);
            let net = NetInfo { hostname: node.hostname.clone(), endpoints: copy_endpoints(&node.endpoints) };
            nets.insert(uuid.clone(), net);
            i += 1;
        }
        nets
    }
}

/// Whether the last outcome that `nodes` holds for `uuid` is a descriptor.
pub open spec fn resolved(nodes: Seq<UuidNodeInfo>, uuid: Seq<char>) -> bool
    decreases nodes.len(),
{
    if nodes.len() == 0 {
        false
    } else if nodes.last().0@ == uuid {
        nodes.last().1 is Some
    } else {
        resolved(nodes.drop_last(), uuid)
    }
}

/// The last descriptor that `nodes` holds for `uuid`.
pub open spec fn descriptor(nodes: Seq<UuidNodeInfo>, uuid: Seq<char>) -> NodeInfo
    decreases nodes.len(),
{
    if nodes.len() == 0 {
        arbitrary()
    } else if nodes.last().0@ == uuid {
        nodes.last().1->0
    } else {
        descriptor(nodes.drop_last(), uuid)
    }
}

proof fn lemma_named_step(nodes: Seq<UuidNodeInfo>)
    requires
        nodes.len() > 0,
    ensures
        forall|uuid: Seq<char>|
            named(nodes).contains(uuid) <==> named(nodes.drop_last()).contains(uuid)
                || nodes.last().0@ == uuid,
{
    let init = nodes.drop_last();
    assert forall|uuid: Seq<char>|
        named(nodes).contains(uuid) <==> named(init).contains(uuid) || nodes.last().0@
            == uuid by {
        if named(nodes).contains(uuid) {
            let i = choose|i: int| 0 <= i < nodes.len() && #[trigger] nodes[i].0@ == uuid;
            if i < init.len() {
                assert(init[i].0@ == uuid);
            }
        }
    }
}

/// What applying the outcomes of `nodes` leaves under `uuid`: for a uuid
/// that the event names, the last outcome decides; any other entry stays as
/// it was.
pub proof fn lemma_applied_at(
    snapshot: Map<Seq<char>, NodeInfo>,
    nodes: Seq<UuidNodeInfo>,
    uuid: Seq<char>,
)
    ensures
        named(nodes).contains(uuid) ==> (applied(snapshot, nodes).contains_key(uuid) <==> resolved(
            nodes,
            uuid,
        )),
        named(nodes).contains(uuid) && resolved(nodes, uuid) ==> applied(snapshot, nodes)[uuid]
            == descriptor(nodes, uuid),
        !named(nodes).contains(uuid) ==> (applied(snapshot, nodes).contains_key(uuid)
            <==> snapshot.contains_key(uuid)),
        !named(nodes).contains(uuid) && snapshot.contains_key(uuid) ==> applied(snapshot, nodes)[uuid]
            == snapshot[uuid],
        resolved(nodes, uuid) ==> named(nodes).contains(uuid),
    decreases nodes.len(),
{
    if nodes.len() > 0 {
        lemma_named_step(nodes);
        lemma_applied_at(snapshot, nodes.drop_last(), uuid);
    }
}

/// After an event the snapshot holds exactly the uuids whose last outcome
/// in the event is a descriptor, each with that descriptor.  Nothing of the
/// snapshot before the event shows through.
pub proof fn lemma_reconciled_at(
    snapshot: Map<Seq<char>, NodeInfo>,
    nodes: Seq<UuidNodeInfo>,
    uuid: Seq<char>,
)
    ensures
        reconciled(snapshot, nodes).contains_key(uuid) <==> resolved(nodes, uuid),
        resolved(nodes, uuid) ==> reconciled(snapshot, nodes)[uuid] == descriptor(nodes, uuid),
        reconciled(snapshot, nodes).contains_key(uuid) ==> named(nodes).contains(uuid),
{
    lemma_applied_at(snapshot.restrict(named(nodes)), nodes, uuid);
}

/// Where every fetch of an event succeeded, the members after the event
/// are exactly the uuids that the event names.
pub proof fn lemma_members_are_named(snapshot: Map<Seq<char>, NodeInfo>, nodes: Seq<UuidNodeInfo>)
    requires
        forall|i: int| 0 <= i < nodes.len() ==> (#[trigger] nodes[i]).1 is Some,
    ensures
        reconciled(snapshot, nodes).dom() == named(nodes),
{
    assert forall|uuid: Seq<char>| named(nodes).contains(uuid) implies resolved(nodes, uuid) by {
        lemma_all_resolved(nodes, uuid);
    }
    assert forall|uuid: Seq<char>|
        reconciled(snapshot, nodes).dom().contains(uuid) <==> named(nodes).contains(uuid) by {
        lemma_reconciled_at(snapshot, nodes, uuid);
    }
}

proof fn lemma_all_resolved(nodes: Seq<UuidNodeInfo>, uuid: Seq<char>)
    requires
        forall|i: int| 0 <= i < nodes.len() ==> (#[trigger] nodes[i]).1 is Some,
        named(nodes).contains(uuid),
    ensures
        resolved(nodes, uuid),
    decreases nodes.len(),
{
    if nodes.len() > 0 {
        lemma_named_step(nodes);
        if nodes.last().0@ != uuid {
            let init = nodes.drop_last();
            lemma_all_resolved(init, uuid);
        }
    }
}

/// Reconciliation is idempotent: the same event applied to a snapshot that
/// it has already been applied to changes nothing.
pub proof fn lemma_reconcile_idempotent(snapshot: Map<Seq<char>, NodeInfo>, nodes: Seq<UuidNodeInfo>)
    ensures
        reconciled(reconciled(snapshot, nodes), nodes) == reconciled(snapshot, nodes),
{
    let once = reconciled(snapshot, nodes);
    let twice = reconciled(once, nodes);
    assert forall|uuid: Seq<char>|
        (once.dom().contains(uuid) <==> #[trigger] twice.dom().contains(uuid)) && (
        once.dom().contains(uuid) ==> once[uuid] == twice[uuid]) by {
        lemma_reconciled_at(snapshot, nodes, uuid);
        lemma_reconciled_at(once, nodes, uuid);
    }
}

/// A uuid whose fetch failed every time it occurs in the event has no entry
/// after the event, whatever the snapshot held for it before.
pub proof fn lemma_failed_fetch_is_absent(
    snapshot: Map<Seq<char>, NodeInfo>,
    nodes: Seq<UuidNodeInfo>,
    uuid: Seq<char>,
)
    requires
        forall|i: int| 0 <= i < nodes.len() && (#[trigger] nodes[i]).0@ == uuid ==> nodes[i].1 is None,
    ensures
        !reconciled(snapshot, nodes).contains_key(uuid),
{
    lemma_reconciled_at(snapshot, nodes, uuid);
    lemma_failed_unresolved(nodes, uuid);
}

proof fn lemma_failed_unresolved(nodes: Seq<UuidNodeInfo>, uuid: Seq<char>)
    requires
        forall|i: int| 0 <= i < nodes.len() && (#[trigger] nodes[i]).0@ == uuid ==> nodes[i].1 is None,
    ensures
        !resolved(nodes, uuid),
    decreases nodes.len(),
{
    if nodes.len() > 0 {
        if nodes.last().0@ != uuid {
            let init = nodes.drop_last();
            lemma_failed_unresolved(init, uuid);
        }
    }
}

/// The spread of the probes of one cycle: a number of seconds that is not
/// zero.
#[derive(Debug)]
pub struct GatherInterval {
    secs: u64,
}

impl GatherInterval {
    /// The seconds of the interval.
    pub closed spec fn spec_secs(&self) -> u64 {
        self.secs
    }

    #[verifier::type_invariant]
    spec fn positive(&self) -> bool {
        self.secs > 0
    }

    /// An interval of `secs` seconds; zero seconds are refused.
    pub fn new(secs: u64) -> (interval: Option<GatherInterval>)
        ensures
            secs == 0 <==> interval is None,
            interval matches Some(i) ==> i.spec_secs() == secs,
    {
        if secs == 0 {
            None
        } else {
            Some(GatherInterval { secs })
        }
    }

    /// The interval that is used where none is configured.
    pub fn standard() -> (interval: GatherInterval)
        ensures
            interval.spec_secs() == GATHER_INTERVAL_SECS,
    {
        GatherInterval { secs: GATHER_INTERVAL_SECS }
    }

    /// The seconds of the interval.
    #[verifier::when_used_as_spec(spec_secs)]
    pub fn secs(&self) -> (secs: u64)
        ensures
            secs == self.spec_secs(),
            secs > 0,
    {
        proof {
            use_type_invariant(self);
        }
        self.secs
    }

    /// The seconds to wait before the probe of the member at place `index`:
    /// the members are spread evenly over the interval, in their order.
    pub fn pause(&self, index: usize) -> (seconds: u64)
        ensures
            self.spec_secs() > 0,
            seconds == (index as int) % (self.spec_secs() as int),
    {
        proof {
            use_type_invariant(self);
        }
        (index as u64) % self.secs
    }
}

/// The place of the first endpoint that is marked as an IPv6 address; an
/// endpoint without a mark counts as unmarked.
pub open spec fn first_ipv6(is_ipv6: Seq<bool>, count: int) -> Option<int>
    decreases count,
{
    if count <= 0 {
        None
    } else {
        match first_ipv6(is_ipv6, count - 1) {
            Some(i) => Some(i),
            None => if count - 1 < is_ipv6.len() && is_ipv6[count - 1] {
                Some(count - 1)
            } else {
                None
            },
        }
    }
}

/// What is said of a member that has no endpoint to probe.
pub const NO_ROUTE: &'static str = "can't find ip6 address among the endpoints";

/// Picks the endpoint to probe: the first one that is an IPv6 address.
/// `is_ipv6` says of each endpoint, place by place, whether it is one.
/// Without such an endpoint the member cannot be probed.
pub fn select_endpoint(endpoints: &Vec<Endpoint>, is_ipv6: &Vec<bool>) -> (selected: Result<
    Endpoint,
    CombinedError,
>)
    ensures
        match first_ipv6(is_ipv6@, endpoints@.len() as int) {
            Some(i) => 0 <= i < endpoints@.len() && selected == Ok::<Endpoint, CombinedError>(
                endpoints@[i],
            ),
            None => selected matches Err(CombinedError::Other(why)) && why@ == NO_ROUTE@,
        },
{
    let mut i: usize = 0;
    while i < endpoints.len()
        invariant
            i <= endpoints.len(),
            first_ipv6(is_ipv6@, i as int) is None,
        decreases endpoints.len() - i,
    {
        if i < is_ipv6.len() && is_ipv6[i] {
            proof {
                lemma_first_ipv6_stays(is_ipv6@, i as int + 1, endpoints@.len() as int);
            }
            return Ok(endpoints[i].clone());
        }
        i += 1;
    }
    Err(CombinedError::Other(String::from_str(NO_ROUTE)))
}

proof fn lemma_first_ipv6_stays(is_ipv6: Seq<bool>, found: int, count: int)
    requires
        0 <= found <= count,
        first_ipv6(is_ipv6, found) is Some,
    ensures
        first_ipv6(is_ipv6, count) == first_ipv6(is_ipv6, found),
        0 <= first_ipv6(is_ipv6, found)->0 < found,
    decreases count,
{
    lemma_first_ipv6_bound(is_ipv6, found);
    if count > found {
        lemma_first_ipv6_stays(is_ipv6, found, count - 1);
    }
}

proof fn lemma_first_ipv6_bound(is_ipv6: Seq<bool>, count: int)
    ensures
        first_ipv6(is_ipv6, count) matches Some(i) ==> 0 <= i < count && i < is_ipv6.len()
            && is_ipv6[i],
    decreases count,
{
    if count > 0 {
        lemma_first_ipv6_bound(is_ipv6, count - 1);
    }
}

/// What a probe brings back on success: the hostname and the telemetry.
pub type OrcaRequestResult = (String, Orca);

/// Whether the record is older than the time for which records are kept.
pub open spec fn outdated(record: OrcaRecord, now: u64) -> bool {
    record.update_timestamp + ONE_HOUR_IN_SECS < now
}

/// The pod without the records that are outdated at `now`.
pub open spec fn retained(pod: Map<Seq<char>, OrcaRecord>, now: u64) -> Map<Seq<char>, OrcaRecord> {
    pod.restrict(Set::new(|host: Seq<char>| pod.contains_key(host) && !outdated(pod[host], now)))
}

/// The pod after the successful probes among `responses` were stored, one
/// after the other, each with the timestamp `now`.
pub open spec fn stored(
    pod: Map<Seq<char>, OrcaRecord>,
    responses: Seq<Option<OrcaRequestResult>>,
    now: u64,
) -> Map<Seq<char>, OrcaRecord>
    decreases responses.len(),
{
    if responses.len() == 0 {
        pod
    } else {
        let earlier = stored(pod, responses.drop_last(), now);
        match responses.last() {
            Some((host, orca)) => earlier.insert(host@, OrcaRecord { orca, update_timestamp: now }),
            None => earlier,
        }
    }
}

/// The pod after a cycle: first the outdated records leave, then the
/// successful probes of the cycle are stored.
pub open spec fn committed(
    pod: Map<Seq<char>, OrcaRecord>,
    responses: Seq<Option<OrcaRequestResult>>,
    now: u64,
) -> Map<Seq<char>, OrcaRecord> {
    stored(retained(pod, now), responses, now)
}

fn is_outdated(record: &OrcaRecord, now: u64) -> (old: bool)
    ensures
        old == outdated(*record, now),
{
    now > record.update_timestamp && now - record.update_timestamp > ONE_HOUR_IN_SECS
}

/// Commits one cycle to the pod at the second `now`.  A probe that failed
/// stores nothing and removes nothing: the record of its host stays until
/// it is outdated.
pub fn commit(pod: &mut OrcasPod, responses: Vec<Option<OrcaRequestResult>>, now: u64)
    ensures
        final(pod)@ == committed(old(pod)@, responses@, now),
{
    let n = pod.len();
    let mut keep: Vec<bool> = Vec::new();
    let mut i: usize = 0;
    while i < n
        invariant
            i <= n,
            n == pod.keys().len(),
            pod.keyed(),
            keep@.len() == i,
            forall|j: int| 0 <= j < i ==> keep@[j] == !outdated(pod@[#[trigger] pod.keys()[j]], now),
        decreases n - i,
    {
        let fresh = !is_outdated(pod.value_at(i), now);
        keep.push(fresh);
        i += 1;
    }
    let ghost before = *pod;
    pod.retain_marked(&keep);
    proof {
        let chosen = StrMap::<OrcaRecord>::marked(before.keys(), keep@);
        assert(before@.restrict(chosen) =~= retained(before@, now));
    }
    let ghost start = pod@;
    let ghost all = responses@;
    for response in it: responses
        invariant
            it.seq() == all,
            pod@ == stored(start, all.take(it.index() as int), now),
    {
        proof {
            let upto = it.index() as int;
            assert(all.take(upto + 1).drop_last() =~= all.take(upto));
        }
        match response {
            Some((host, orca)) => {
                pod.insert(host, OrcaRecord { orca, update_timestamp: now });
            },
            None => {},
        }
    }
    proof {
        assert(all.take(all.len() as int) =~= all);
    }
}

/// Whether the probe succeeded and was of `host`.
pub open spec fn answer_of(response: Option<OrcaRequestResult>, host: Seq<char>) -> bool {
    match response {
        Some((name, _)) => name@ == host,
        None => false,
    }
}

/// The telemetry that the probe brought.
pub open spec fn answer_orca(response: Option<OrcaRequestResult>) -> Orca {
    match response {
        Some((_, orca)) => orca,
        None => arbitrary(),
    }
}

/// Whether one of the successful probes among `responses` is of `host`.
pub open spec fn answered(responses: Seq<Option<OrcaRequestResult>>, host: Seq<char>) -> bool {
    exists|i: int| 0 <= i < responses.len() && answer_of(#[trigger] responses[i], host)
}

/// A host whose probes all failed in a cycle keeps the record that it had,
/// unless that record is outdated; a host without a record gets none.  So an
/// outdated record leaves the pod also where the probe of its host failed.
pub proof fn lemma_unanswered_host(
    pod: Map<Seq<char>, OrcaRecord>,
    responses: Seq<Option<OrcaRequestResult>>,
    now: u64,
    host: Seq<char>,
)
    requires
        !answered(responses, host),
    ensures
        committed(pod, responses, now).contains_key(host) <==> pod.contains_key(host) && !outdated(
            pod[host],
            now,
        ),
        committed(pod, responses, now).contains_key(host) ==> committed(pod, responses, now)[host]
            == pod[host],
{
    lemma_stored_unanswered(retained(pod, now), responses, now, host);
}

proof fn lemma_stored_unanswered(
    pod: Map<Seq<char>, OrcaRecord>,
    responses: Seq<Option<OrcaRequestResult>>,
    now: u64,
    host: Seq<char>,
)
    requires
        !answered(responses, host),
    ensures
        stored(pod, responses, now).contains_key(host) <==> pod.contains_key(host),
        pod.contains_key(host) ==> stored(pod, responses, now)[host] == pod[host],
    decreases responses.len(),
{
    if responses.len() > 0 {
        let init = responses.drop_last();
        lemma_stored_unanswered(pod, init, now, host);
    }
}

/// A host with a successful probe in a cycle has a record after it, taken
/// at the second of the commit.
pub proof fn lemma_answered_host(
    pod: Map<Seq<char>, OrcaRecord>,
    responses: Seq<Option<OrcaRequestResult>>,
    now: u64,
    host: Seq<char>,
)
    requires
        answered(responses, host),
    ensures
        committed(pod, responses, now).contains_key(host),
        committed(pod, responses, now)[host].update_timestamp == now,
        exists|i: int|
            0 <= i < responses.len() && answer_of(#[trigger] responses[i], host) && committed(
                pod,
                responses,
                now,
            )[host].orca == answer_orca(responses[i]),
{
    lemma_stored_answered(retained(pod, now), responses, now, host);
}

proof fn lemma_stored_answered(
    pod: Map<Seq<char>, OrcaRecord>,
    responses: Seq<Option<OrcaRequestResult>>,
    now: u64,
    host: Seq<char>,
)
    requires
        answered(responses, host),
    ensures
        stored(pod, responses, now).contains_key(host),
        stored(pod, responses, now)[host].update_timestamp == now,
        exists|i: int|
            0 <= i < responses.len() && answer_of(#[trigger] responses[i], host) && stored(
                pod,
                responses,
                now,
            )[host].orca == answer_orca(responses[i]),
    decreases responses.len(),
{
    let init = responses.drop_last();
    if !answer_of(responses.last(), host) {
        let i = choose|i: int| 0 <= i < responses.len() && answer_of(#[trigger] responses[i], host);
        assert(answer_of(init[i], host));
        lemma_stored_answered(pod, init, now, host);
        let j = choose|j: int|
            0 <= j < init.len() && answer_of(#[trigger] init[j], host) && stored(pod, init, now)[host].orca
                == answer_orca(init[j]);
        assert(responses[j] == init[j]);
    }
}

/// The name of the header that carries the credentials.
pub const AUTHORIZATION: &'static str = "authorization";

/// A header as it goes on the wire: name and value as bytes.
#[derive(Debug)]
pub struct RawHeader {
    pub name: Vec<u8>,
    pub data: Vec<u8>,
}

/// The headers of one call.
pub type AuthHeaders = Vec<RawHeader>;

/// Whether `headers` carry exactly the credentials `header`: nothing
/// without credentials, else the one authorization header.
pub open spec fn authorizes(headers: Option<AuthHeaders>, header: Option<String>) -> bool {
    match (headers, header) {
        (None, None) => true,
        (Some(list), Some(text)) => list@.len() == 1 && list@[0].name@ == encode_utf8(AUTHORIZATION@)
            && list@[0].data@ == encode_utf8(text@),
        _ => false,
    }
}

/// The headers that carry the credentials.
pub fn make_auth_headers(header: Option<String>) -> (headers: Option<AuthHeaders>)
    ensures
        authorizes(headers, header),
{
    match header {
        Some(text) => {
            let mut list: Vec<RawHeader> = Vec::new();
            list.push(RawHeader { name: AUTHORIZATION.as_bytes_vec(), data: text.as_str().as_bytes_vec() });
            Some(list)
        },
        None => None,
    }
}

/// The path under which the descriptor of `uuid` is kept.
pub open spec fn node_path(path: Seq<char>, uuid: Seq<char>) -> Seq<char> {
    path + "/"@ + uuid
}

/// One read of a descriptor.
#[derive(Debug)]
pub struct NodeRequest {
    pub uuid: String,
    pub path: String,
    pub headers: Option<AuthHeaders>,
}

/// Where a run of the membership tracker stands.
#[derive(Debug, Clone, Copy, PartialEq, Eq, Structural)]
pub enum Phase {
    /// Nothing was asked yet.
    Idle,
    /// The credentials for the subscription are awaited.
    Authorizing,
    /// The subscription stands; the next event is awaited.
    Listening,
    /// An event is in work; the credentials for its reads are awaited.
    Preparing,
    /// An event is in work; its descriptors are awaited.
    Fetching,
    /// The run is over.
    Stopped,
}

/// What happened outside the tracker.
#[derive(Debug)]
pub enum Input {
    /// The run begins.
    Start,
    /// The credential provider answered: a header, or none.
    Header(Option<String>),
    /// The subscription delivered its next event.
    Event(SubscribeMessage),
    /// The reads of the event in work ended, one outcome for each uuid in
    /// the order of the event.
    Descriptors(Vec<Result<Option<NodeInfo>, CombinedError>>),
    /// The credential provider, the subscription or the queue failed.
    Failed(CombinedError),
}

/// What is to be done outside the tracker.
#[derive(Debug)]
pub enum Action {
    /// Ask the credential provider for the header and hand it in.
    NeedHeader,
    /// Subscribe to the children of the path, then hand in the events one by
    /// one.
    Subscribe { path: String, headers: Option<AuthHeaders> },
    /// Read the descriptors, each on its own, and hand in the outcomes.
    Fetch { requests: Vec<NodeRequest> },
    /// Bring the snapshot in line with the event, then hand in the next
    /// event.
    Commit { nodes: Vec<UuidNodeInfo> },
    /// Empty the snapshot and end the run with this failure.
    Stop { error: CombinedError },
    /// The input does not belong to the phase: nothing is to be done.
    Nothing,
}

/// One run of the membership tracker over the children of a path.
#[derive(Debug)]
pub struct Subscription {
    path: String,
    phase: Phase,
    held: Vec<String>,
}

/// The outcome of the read at place `i`: the descriptor, or nothing where
/// the read failed, found no value or has no outcome.
pub open spec fn settled(outcomes: Seq<Result<Option<NodeInfo>, CombinedError>>, i: int) -> Option<
    NodeInfo,
> {
    if 0 <= i < outcomes.len() {
        match outcomes[i] {
            Ok(found) => found,
            Err(_) => None,
        }
    } else {
        None
    }
}

impl Subscription {
    /// The watched path.
    pub closed spec fn path(&self) -> Seq<char> {
        self.path@
    }

    /// The phase of the run.
    pub closed spec fn phase(&self) -> Phase {
        self.phase
    }

    /// The uuids of the event in work.
    pub closed spec fn held(&self) -> Seq<String> {
        self.held@
    }

    /// A run over the children of `path` that has not begun.
    pub fn new(path: &str) -> (run: Subscription)
        ensures
            run.path() == path@,
            run.phase() == Phase::Idle,
            run.held().len() == 0,
    {
        Subscription { path: String::from_str(path), phase: Phase::Idle, held: Vec::new() }
    }

    /// Whether `requests` read the descriptors of the uuids in work, in
    /// their order, each under its own path and with the credentials
    /// `header`.
    pub open spec fn reads(&self, requests: Seq<NodeRequest>, header: Option<String>) -> bool {
        &&& requests.len() == self.held().len()
        &&& forall|i: int|
            0 <= i < requests.len() ==> {
                &&& (#[trigger] requests[i]).uuid@ == self.held()[i]@
                &&& requests[i].path@ == node_path(self.path(), self.held()[i]@)
                &&& authorizes(requests[i].headers, header)
            }
    }

    /// Whether `nodes` pair the uuids in work, in their order, with the
    /// outcomes of their reads.
    pub open spec fn pairs(
        &self,
        nodes: Seq<UuidNodeInfo>,
        outcomes: Seq<Result<Option<NodeInfo>, CombinedError>>,
    ) -> bool {
        &&& nodes.len() == self.held().len()
        &&& forall|i: int|
            0 <= i < nodes.len() ==> (#[trigger] nodes[i]).0 == self.held()[i] && nodes[i].1 == settled(
                outcomes,
                i,
            )
    }

    fn requests(&self, header: &Option<String>) -> (requests: Vec<NodeRequest>)
        ensures
            self.reads(requests@, *header),
    {
        let mut requests: Vec<NodeRequest> = Vec::new();
        let mut i: usize = 0;
        while i < self.held.len()
            invariant
                i <= self.held@.len(),
                requests@.len() == i,
                forall|j: int|
                    0 <= j < i ==> {
                        &&& (#[trigger] requests@[j]).uuid@ == self.held@[j]@
                        &&& requests@[j].path@ == node_path(self.path@, self.held@[j]@)
                        &&& authorizes(requests@[j].headers, *header)
                    },
            decreases self.held@.len() - i,
        {
            let uuid = self.held[i].clone();
            let mut path = self.path.clone();
            path.append("/");
            path.append(uuid.as_str());
            let credentials = match header {
                Some(text) => Some(text.clone()),
                None => None,
            };
            requests.push(NodeRequest { uuid, path, headers: make_auth_headers(credentials) });
            i += 1;
        }
        requests
    }

    fn pair(&mut self, outcomes: Vec<Result<Option<NodeInfo>, CombinedError>>) -> (nodes: Vec<
        UuidNodeInfo,
    >)
        ensures
            old(self).pairs(nodes@, outcomes@),
            final(self).path() == old(self).path(),
            final(self).phase() == old(self).phase(),
            final(self).held().len() == 0,
    {
        let mut uuids: Vec<String> = Vec::new();
        core::mem::swap(&mut self.held, &mut uuids);
        let ghost all = outcomes@;
        let ghost names = uuids@;
        let mut nodes: Vec<UuidNodeInfo> = Vec::new();
        for outcome in it: outcomes
            invariant
                it.seq() == all,
                names.len() >= nodes@.len(),
                nodes@.len() == if it.index() < names.len() {
                    it.index() as int
                } else {
                    names.len() as int
                },
                uuids@.len() == names.len(),
                forall|j: int| nodes@.len() <= j < names.len() ==> uuids@[j] == names[j],
                forall|j: int|
                    0 <= j < nodes@.len() ==> (#[trigger] nodes@[j]).0 == names[j] && nodes@[j].1
                        == settled(all, j),
        {
            let at = nodes.len();
            if at < uuids.len() {
                let mut uuid = String::new();
                core::mem::swap(&mut uuids[at], &mut uuid);
                let found = match outcome {
                    Ok(found) => found,
                    Err(_) => None,
                };
                nodes.push((uuid, found));
            }
        }
        while nodes.len() < uuids.len()
            invariant
                nodes@.len() <= names.len(),
                nodes@.len() == names.len() || all.len() <= nodes@.len(),
                uuids@.len() == names.len(),
                forall|j: int| nodes@.len() <= j < names.len() ==> uuids@[j] == names[j],
                forall|j: int|
                    0 <= j < nodes@.len() ==> (#[trigger] nodes@[j]).0 == names[j] && nodes@[j].1
                        == settled(all, j),
            decreases uuids@.len() - nodes@.len(),
        {
            let at = nodes.len();
            let mut uuid = String::new();
            core::mem::swap(&mut uuids[at], &mut uuid);
            nodes.push((uuid, None));
        }
        nodes
    }

    /// Takes what happened and says what is to be done next.  A failure ends
    /// the run from any phase; an input that does not belong to the phase
    /// changes nothing.
    pub fn step(&mut self, input: Input) -> (action: Action)
        ensures
            final(self).path() == old(self).path(),
            match (old(self).phase(), input) {
                (Phase::Stopped, _) => *final(self) == *old(self) && action is Nothing,
                (_, Input::Failed(error)) => final(self).phase() == Phase::Stopped && action
                    == (Action::Stop { error }),
                (Phase::Idle, Input::Start) => final(self).phase() == Phase::Authorizing
                    && action is NeedHeader,
                (Phase::Authorizing, Input::Header(header)) => {
                    &&& final(self).phase() == Phase::Listening
                    &&& action matches Action::Subscribe { path, headers }
                    &&& path@ == old(self).path()
                    &&& authorizes(headers, header)
                },
                (Phase::Listening, Input::Event((_, uuids))) => {
                    &&& final(self).phase() == Phase::Preparing
                    &&& final(self).held() == uuids@
                    &&& action is NeedHeader
                },
                (Phase::Preparing, Input::Header(header)) => {
                    &&& final(self).phase() == Phase::Fetching
                    &&& final(self).held() == old(self).held()
                    &&& action matches Action::Fetch { requests }
                    &&& old(self).reads(requests@, header)
                },
                (Phase::Fetching, Input::Descriptors(outcomes)) => {
                    &&& final(self).phase() == Phase::Listening
                    &&& final(self).held().len() == 0
                    &&& action matches Action::Commit { nodes }
                    &&& old(self).pairs(nodes@, outcomes@)
                },
                _ => *final(self) == *old(self) && action is Nothing,
            },
    {
        match self.phase {
            Phase::Stopped => Action::Nothing,
            Phase::Idle => match input {
                Input::Failed(error) => {
                    self.phase = Phase::Stopped;
                    Action::Stop { error }
                },
                Input::Start => {
                    self.phase = Phase::Authorizing;
                    Action::NeedHeader
                },
                _ => Action::Nothing,
            },
            Phase::Authorizing => match input {
                Input::Failed(error) => {
                    self.phase = Phase::Stopped;
                    Action::Stop { error }
                },
                Input::Header(header) => {
                    self.phase = Phase::Listening;
                    Action::Subscribe { path: self.path.clone(), headers: make_auth_headers(header) }
                },
                _ => Action::Nothing,
            },
            Phase::Listening => match input {
                Input::Failed(error) => {
                    self.phase = Phase::Stopped;
                    Action::Stop { error }
                },
                Input::Event(message) => {
                    self.phase = Phase::Preparing;
                    self.held = message.1;
                    Action::NeedHeader
                },
                _ => Action::Nothing,
            },
            Phase::Preparing => match input {
                Input::Failed(error) => {
                    self.phase = Phase::Stopped;
                    Action::Stop { error }
                },
                Input::Header(header) => {
                    let requests = self.requests(&header);
                    self.phase = Phase::Fetching;
                    Action::Fetch { requests }
                },
                _ => Action::Nothing,
            },
            Phase::Fetching => match input {
                Input::Failed(error) => {
                    self.phase = Phase::Stopped;
                    Action::Stop { error }
                },
                Input::Descriptors(outcomes) => {
                    let nodes = self.pair(outcomes);
                    self.phase = Phase::Listening;
                    Action::Commit { nodes }
                },
                _ => Action::Nothing,
            },
        }
    }
}

/// Whether `hyper::Uri` accepts the text when it is parsed as a request
/// target.
pub uninterp spec fn uri_is_valid(text: Seq<char>) -> bool;

/// Parses the text as a `hyper::Uri`, through the `FromStr` of that type, and
/// says whether the parser accepted it; the parsed value is dropped.  The
/// parser reads nothing but the text, so the answer is a function of the
/// text.  No more than that is claimed: which texts are accepted is not
/// stated here.
#[verifier::external_body]
fn uri_parses(text: &str) -> (accepted: bool)
    ensures
        accepted == uri_is_valid(text@),
{
    text.parse::<hyper::Uri>().is_ok()
}

/// The address of a handle of the node agent at an IPv6 host.
pub open spec fn ip6_uri_text(host: Seq<char>, port: u16, path: Seq<char>) -> Seq<char> {
    DEFAULT_WEB_SCHEME@ + "://["@ + host + "]:"@ + decimal(port as nat) + "/"@ + path
}

/// Whether `target` is what comes of the address `text`: the text itself
/// where it is a valid request target, else the failure that names it.
pub open spec fn targets(target: Result<String, CombinedError>, text: Seq<char>) -> bool {
    if uri_is_valid(text) {
        target matches Ok(t) && t@ == text
    } else {
        target matches Err(e) && e matches CombinedError::UriParseError(t) && t@ == text
    }
}

/// Forms the address of a handle at an IPv6 host.
pub fn ip6_address(uri: &str, port: u16, path: &str) -> (text: String)
    ensures
        text@ == ip6_uri_text(uri@, port, path@),
{
    let mut text = String::from_str(DEFAULT_WEB_SCHEME);
    text.append("://[");
    text.append(uri);
    text.append("]:");
    let digits = decimal_text(port);
    text.append(digits.as_str());
    text.append("/");
    text.append(path);
    text
}

/// What comes of an address once it is known whether it was accepted as a
/// request target: the address, or the failure that names it.
pub fn checked_target(text: String, accepted: bool) -> (target: Result<String, CombinedError>)
    ensures
        accepted ==> target == Ok::<String, CombinedError>(text),
        !accepted ==> target == Err::<String, CombinedError>(CombinedError::UriParseError(text)),
{
    if accepted {
        Ok(text)
    } else {
        Err(CombinedError::UriParseError(text))
    }
}

/// Forms the address of a handle at an IPv6 host and checks that it is a
/// valid request target.
pub fn ip6_uri_from_string(uri: &str, port: u16, path: &str) -> (target: Result<String, CombinedError>)
    ensures
        targets(target, ip6_uri_text(uri@, port, path@)),
{
    let text = ip6_address(uri, port, path);
    let accepted = uri_parses(text.as_str());
    checked_target(text, accepted)
}

/// The path of a handle under a version of the agent's interface.
pub fn make_path(api_ver: &str, math: &str) -> (path: String)
    ensures
        path@ == api_ver@ + "/"@ + math@,
{
    let mut path = String::from_str(api_ver);
    path.append("/");
    path.append(math);
    path
}

/// The three calls of one probe.
#[derive(Debug)]
pub struct ProbeTargets {
    /// Who the agent is.
    pub info: Result<String, CombinedError>,
    /// What the agent has committed.
    pub state: Result<String, CombinedError>,
    /// The agent's metrics.
    pub metrics: Result<String, CombinedError>,
}

/// The calls that probe the agent at `endpoint`: its identity, its
/// committed state and its metrics, all at the agent's port.
pub fn make_requests_v1(endpoint: &Endpoint) -> (calls: ProbeTargets)
    ensures
        targets(calls.info, ip6_uri_text(endpoint.0@, DEFAULT_WEB_PORT, "info"@)),
        targets(calls.state, ip6_uri_text(endpoint.0@, DEFAULT_WEB_PORT, "v1"@ + "/"@ + "state"@)),
        targets(
            calls.metrics,
            ip6_uri_text(endpoint.0@, DEFAULT_WEB_PORT, "v1"@ + "/"@ + "metrics?flatten"@),
        ),
{
    let host = endpoint.host_str();
    let info = ip6_uri_from_string(host.as_str(), DEFAULT_WEB_PORT, "info");
    let state_path = make_path("v1", "state");
    let state = ip6_uri_from_string(host.as_str(), DEFAULT_WEB_PORT, state_path.as_str());
    let metrics_path = make_path("v1", "metrics?flatten");
    let metrics = ip6_uri_from_string(host.as_str(), DEFAULT_WEB_PORT, metrics_path.as_str());
    ProbeTargets { info, state, metrics }
}

/// What the calls of one probe brought back.
#[derive(Debug)]
pub struct ProbeAnswers {
    /// The agent's identity.
    pub info: Result<Info, CombinedError>,
    /// The committed state.
    pub state: Result<CommittedState, CombinedError>,
    /// The metrics.
    pub metrics: Result<Metrics, CombinedError>,
    /// The target state that reached the node, where the agent reports it.
    pub incoming: Option<IncomingState>,
    /// The workers that run, where the agent reports them.
    pub running: Option<WorkersDistribution>,
}

/// The target state that the probe goes by.
pub open spec fn incoming_of(answers: ProbeAnswers) -> Map<Seq<char>, InAppState> {
    match answers.incoming {
        Some(incoming) => incoming.state@,
        None => Map::empty(),
    }
}

/// The running workers that the probe goes by.
pub open spec fn running_of(answers: ProbeAnswers) -> Map<Seq<char>, i64> {
    match answers.running {
        Some(running) => running@,
        None => Map::empty(),
    }
}

/// Whether `orca` is the telemetry that the answers give for the probed
/// endpoint: identity and committed state as they came, the metrics or, where
/// their call failed, none, and the worker counts of every application.
pub open spec fn assembles(orca: Orca, endpoint: Endpoint, answers: ProbeAnswers) -> bool {
    &&& answers.info is Ok
    &&& answers.state is Ok
    &&& orca.endpoints@ == seq![endpoint]
    &&& orca.info == answers.info->Ok_0
    &&& orca.committed_state == answers.state->Ok_0
    &&& orca.metrics@ == match answers.metrics {
        Ok(metrics) => metrics@,
        Err(_) => Map::empty(),
    }
    &&& orca.distribution@ == expected_distribution(
        incoming_of(answers),
        (answers.state->Ok_0).state@,
        running_of(answers),
    )
    &&& orca.mismatched@ == mismatched_part(orca.distribution@)
}

/// Puts the answers of one probe together.  The probe fails where the
/// identity or the committed state failed, with that failure, the identity's
/// first; failed metrics only leave the metrics empty.
pub fn complete_requests_v1(hostname: String, endpoint: Endpoint, answers: ProbeAnswers) -> (result:
    Result<OrcaRequestResult, CombinedError>)
    ensures
        match (answers.info, answers.state) {
            (Err(e), _) => result == Err::<OrcaRequestResult, CombinedError>(e),
            (Ok(_), Err(e)) => result == Err::<OrcaRequestResult, CombinedError>(e),
            (Ok(_), Ok(_)) => {
                &&& result matches Ok((host, orca))
                &&& host == hostname
                &&& assembles(orca, endpoint, answers)
            },
        },
{
    let ProbeAnswers { info, state, metrics, incoming, running } = answers;
    let info = match info {
        Ok(info) => info,
        Err(e) => {
            return Err(e);
        },
    };
    let committed_state = match state {
        Ok(state) => state,
        Err(e) => {
            return Err(e);
        },
    };
    let metrics = match metrics {
        Ok(metrics) => metrics,
        Err(_) => StrMap::new(),
    };
    let incoming = match incoming {
        Some(incoming) => incoming,
        None => IncomingState::new(),
    };
    let running = match running {
        Some(running) => running,
        None => StrMap::new(),
    };
    let distribution = make_workers_distribution(&incoming, &committed_state, &running);
    let mismatched = make_mismatched_list(&distribution);
    let mut endpoints: Vec<Endpoint> = Vec::new();
    endpoints.push(endpoint);
    Ok((hostname, Orca { endpoints, info, metrics, mismatched, distribution, committed_state }))
}

/// The probe of one member as a cycle plans it.
#[derive(Debug)]
pub struct ProbePlan {
    /// The member.
    pub uuid: String,
    /// Where it can be reached.
    pub net: NetInfo,
    /// The seconds to wait before the probe goes out.
    pub pause_secs: u64,
}

/// Plans the probes of one cycle: one for each member, in the order of the
/// members, each held back by its place modulo the interval.
pub fn plan_probes(hosts: &StrMap<NetInfo>, interval: &GatherInterval) -> (plans: Vec<ProbePlan>)
    ensures
        interval.spec_secs() > 0,
        plans@.len() == hosts.keys().len(),
        forall|i: int|
            0 <= i < plans@.len() ==> {
                &&& (#[trigger] plans@[i]).uuid@ == hosts.keys()[i]
                &&& plans@[i].net.hostname == hosts@[hosts.keys()[i]].hostname
                &&& plans@[i].net.endpoints@ == hosts@[hosts.keys()[i]].endpoints@
                &&& plans@[i].pause_secs == i % (interval.spec_secs() as int)
            },
{
    let secs = interval.secs();
    let mut plans: Vec<ProbePlan> = Vec::new();
    let n = hosts.len();
    let mut i: usize = 0;
    while i < n
        invariant
            i <= n,
            n == hosts.keys().len(),
            secs == interval.spec_secs(),
            secs > 0,
            plans@.len() == i,
            forall|j: int|
                0 <= j < i ==> {
                    &&& (#[trigger] plans@[j]).uuid@ == hosts.keys()[j]
                    &&& plans@[j].net.hostname == hosts@[hosts.keys()[j]].hostname
                    &&& plans@[j].net.endpoints@ == hosts@[hosts.keys()[j]].endpoints@
                    &&& plans@[j].pause_secs == j % (secs as int)
                },
        decreases n - i,
    {
        let uuid = hosts.key_at(i).clone();
        let known = hosts.value_at(i);
        let net = NetInfo { hostname: known.hostname.clone(), endpoints: copy_endpoints(&known.endpoints) };
        let pause_secs = interval.pause(i);
        plans.push(ProbePlan { uuid, net, pause_secs });
        i += 1;
    }
    plans
}

/// What is kept of a probe for the commit: its result, or nothing where it
/// failed.  No failure of a probe goes further than this.
pub fn settle(outcome: Result<OrcaRequestResult, CombinedError>) -> (response: Option<OrcaRequestResult>)
    ensures
        response == match outcome {
            Ok(result) => Some(result),
            Err(_) => None,
        },
{
    match outcome {
        Ok(result) => Some(result),
        Err(_) => None,
    }
}

/// Commits one cycle to the pod at the second that the system clock shows.
pub fn gather(orcas: &mut OrcasPod, responses: Vec<Option<OrcaRequestResult>>)
    ensures
        exists|now: u64| final(orcas)@ == #[trigger] committed(old(orcas)@, responses@, now),
{
    let now = unix_now();
    commit(orcas, responses, now);
}

/// A run of the membership tracker over the children of `path`.
pub fn subscription(path: &str) -> (run: Subscription)
    ensures
        run.path() == path@,
        run.phase() == Phase::Idle,
        run.held().len() == 0,
{
    Subscription::new(path)
}

} // verus!
