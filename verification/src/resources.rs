//! Descriptors of cluster nodes as the coordination service publishes them.

use vstd::prelude::*;

verus! {

/// A network endpoint of a node: a host (name or address literal) and a port.
#[derive(Debug)]
pub struct Endpoint(pub String, pub u16);

impl Endpoint {
    /// The host part of the endpoint.
    pub fn host_str(&self) -> (host: String)
        ensures
            host == self.0,
    {
        self.0.clone()
    }
}

impl Clone for Endpoint {
    fn clone(&self) -> (copy: Endpoint)
        ensures
            copy == *self,
    {
        Endpoint(self.0.clone(), self.1)
    }
}

/// A copy of the endpoints, one for one.
pub fn copy_endpoints(endpoints: &Vec<Endpoint>) -> (copy: Vec<Endpoint>)
    ensures
        copy@ == endpoints@,
{
    let mut copy: Vec<Endpoint> = Vec::new();
    let mut i: usize = 0;
    while i < endpoints.len()
        invariant
            i <= endpoints.len(),
            copy@ == endpoints@.take(i as int),
        decreases endpoints.len() - i,
    {
        copy.push(endpoints[i].clone());
        i += 1;
    }
    copy
}

/// Resources a node offers.
#[derive(Debug, Clone, Copy, PartialEq, Eq, Structural)]
pub struct Resources {
    pub cpu: i64,
    pub mem: i64,
}

/// The descriptor of one cluster member.
#[derive(Debug)]
pub struct NodeInfo {
    pub hostname: String,
    pub resources: Resources,
    pub endpoints: Vec<Endpoint>,
}

impl Clone for NodeInfo {
    fn clone(&self) -> (copy: NodeInfo)
        ensures
            copy.hostname == self.hostname,
            copy.resources == self.resources,
            copy.endpoints@ == self.endpoints@,
    {
        NodeInfo {
            hostname: self.hostname.clone(),
            resources: self.resources,
            endpoints: copy_endpoints(&self.endpoints),
        }
    }
}

} // verus!
