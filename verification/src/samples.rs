//! A small made-up cluster for trying the collector without a coordination
//! service.

use crate::engine::Cluster;
use crate::resources::{Endpoint, NodeInfo, Resources};
use crate::strmap::StrMap;
use vstd::prelude::*;
use vstd::string::*;

verus! {

/// The address of the local host.
pub const LOCAL_IPV6: &'static str = "::1";

/// One application of a state document: its workers and its profile.
#[derive(Debug)]
pub struct StateRecord {
    pub workers: i32,
    pub profile: String,
}

/// A state document: records by application.
pub type State = StrMap<StateRecord>;

/// Whether `node` is the made-up member of that hostname and those
/// resources, reachable at the local host on the agents' port.
pub open spec fn dummy(node: NodeInfo, hostname: Seq<char>, cpu: i64, mem: i64) -> bool {
    &&& node.hostname@ == hostname
    &&& node.resources == (Resources { cpu, mem })
    &&& node.endpoints@.len() == 1
    &&& node.endpoints@[0].0@ == LOCAL_IPV6@
    &&& node.endpoints@[0].1 == 8877
}

fn make_dummy_node_info(hostname: &str, cpu: i64, mem: i64) -> (node: NodeInfo)
    ensures
        dummy(node, hostname@, cpu, mem),
{
    let mut endpoints: Vec<Endpoint> = Vec::new();
    endpoints.push(Endpoint(String::from_str(LOCAL_IPV6), 8877));
    NodeInfo { hostname: String::from_str(hostname), resources: Resources { cpu, mem }, endpoints }
}

/// A cluster of six made-up members, `a` to `f`.
pub fn make_dummy_cluster() -> (cluster: Cluster)
    ensures
        cluster@.dom() == set!["a"@, "b"@, "c"@, "d"@, "e"@, "f"@],
        cluster@.len() == 6,
        dummy(cluster@["a"@], "host1.net"@, 100, 1024),
        dummy(cluster@["b"@], "host2.net"@, 200, 2048),
        dummy(cluster@["c"@], "host3.net"@, 300, 3072),
        dummy(cluster@["d"@], "host4.net"@, 900, 12288),
        dummy(cluster@["e"@], "host5.net"@, 800, 7168),
        dummy(cluster@["f"@], "host6.net"@, 200, 1024),
{
    proof {
        reveal_strlit("a");
        reveal_strlit("b");
        reveal_strlit("c");
        reveal_strlit("d");
        reveal_strlit("e");
        reveal_strlit("f");
        assert("a"@[0] == 'a');
        assert("b"@[0] == 'b');
        assert("c"@[0] == 'c');
        assert("d"@[0] == 'd');
        assert("e"@[0] == 'e');
        assert("f"@[0] == 'f');
    }
    let mut cluster: Cluster = StrMap::new();
    cluster.insert(String::from_str("a"), make_dummy_node_info("host1.net", 100, 1024));
    cluster.insert(String::from_str("b"), make_dummy_node_info("host2.net", 2 * 100, 2 * 1024));
    cluster.insert(String::from_str("c"), make_dummy_node_info("host3.net", 3 * 100, 3 * 1024));
    cluster.insert(String::from_str("d"), make_dummy_node_info("host4.net", 9 * 100, 12 * 1024));
    cluster.insert(String::from_str("e"), make_dummy_node_info("host5.net", 8 * 100, 7 * 1024));
    cluster.insert(String::from_str("f"), make_dummy_node_info("host6.net", 2 * 100, 1 * 1024));
    cluster
}

} // verus!
