//! Cluster node types.

use vstd::prelude::*;
use crate::sys::now_unix_nanos;
use crate::text::str_eq;

verus! {

/// Identifier of a node.
pub type NodeId = String;

/// Role of a node in the cluster.
#[derive(Clone, Copy, Debug, PartialEq, Eq, Hash, Structural)]
pub enum NodeRole {
    /// Global control plane node.
    Global,
    /// Regional cluster node.
    Regional,
    /// Edge node.
    Edge,
    /// Local execution node.
    Local,
}

/// The name of a role.
pub open spec fn role_name(r: NodeRole) -> Seq<char> {
    match r {
        NodeRole::Global => "global"@,
        NodeRole::Regional => "regional"@,
        NodeRole::Edge => "edge"@,
        NodeRole::Local => "local"@,
    }
}

impl NodeRole {
    /// The role's name (what `Display` prints).
    pub fn to_string(&self) -> (s: String)
        ensures
            s@ == role_name(*self),
    {
        match self {
            NodeRole::Global => "global".to_owned(),
            NodeRole::Regional => "regional".to_owned(),
            NodeRole::Edge => "edge".to_owned(),
            NodeRole::Local => "local".to_owned(),
        }
    }
}

/// The role named `s`, if any.
pub fn parse_role(s: &str) -> (r: Option<NodeRole>)
    ensures
        match r {
            Some(role) => s@ == role_name(role),
            None => forall|role: NodeRole| s@ != #[trigger] role_name(role),
        },
{
    proof {
        reveal_strlit("global");
        reveal_strlit("regional");
        reveal_strlit("edge");
        reveal_strlit("local");
    }
    if str_eq(s, "global") {
        Some(NodeRole::Global)
    } else if str_eq(s, "regional") {
        Some(NodeRole::Regional)
    } else if str_eq(s, "edge") {
        Some(NodeRole::Edge)
    } else if str_eq(s, "local") {
        Some(NodeRole::Local)
    } else {
        None
    }
}

/// Geographic region.
#[derive(Debug, PartialEq, Eq, Hash)]
pub struct NodeRegion(pub String);

impl NodeRegion {
    /// Europe west.
    pub fn eu_west_1() -> (r: NodeRegion)
        ensures
            r.0@ == "eu-west-1"@,
    {
        NodeRegion("eu-west-1".to_owned())
    }

    /// US east.
    pub fn us_east_1() -> (r: NodeRegion)
        ensures
            r.0@ == "us-east-1"@,
    {
        NodeRegion("us-east-1".to_owned())
    }

    /// Asia Pacific.
    pub fn ap_southeast_1() -> (r: NodeRegion)
        ensures
            r.0@ == "ap-southeast-1"@,
    {
        NodeRegion("ap-southeast-1".to_owned())
    }

    /// Any edge location.
    pub fn edge() -> (r: NodeRegion)
        ensures
            r.0@ == "edge"@,
    {
        NodeRegion("edge".to_owned())
    }

    /// The region name (what `Display` prints).
    pub fn to_string(&self) -> (s: String)
        ensures
            s@ == self.0@,
    {
        self.0.clone()
    }
}

/// Health of a node.
#[derive(Clone, Copy, Debug, PartialEq, Eq, Hash, Structural)]
pub enum NodeStatus {
    /// Accepting traffic.
    Healthy,
    /// Operational but degraded.
    Degraded,
    /// Traffic should be rerouted.
    Unhealthy,
    /// Missed its heartbeats.
    Offline,
}

/// The name of a status.
pub open spec fn status_name(s: NodeStatus) -> Seq<char> {
    match s {
        NodeStatus::Healthy => "healthy"@,
        NodeStatus::Degraded => "degraded"@,
        NodeStatus::Unhealthy => "unhealthy"@,
        NodeStatus::Offline => "offline"@,
    }
}

impl NodeStatus {
    /// The status name (what `Display` prints).
    pub fn to_string(&self) -> (s: String)
        ensures
            s@ == status_name(*self),
    {
        match self {
            NodeStatus::Healthy => "healthy".to_owned(),
            NodeStatus::Degraded => "degraded".to_owned(),
            NodeStatus::Unhealthy => "unhealthy".to_owned(),
            NodeStatus::Offline => "offline".to_owned(),
        }
    }
}

/// A cluster node.
#[derive(Debug)]
pub struct ClusterNode {
    /// Unique id.
    pub id: NodeId,
    /// Human-readable name.
    pub name: String,
    /// Role.
    pub role: NodeRole,
    /// Region.
    pub region: NodeRegion,
    /// NXP endpoint address (e.g. "10.0.0.5:4433").
    pub addr: String,
    /// Advertised capabilities.
    pub capabilities: Vec<String>,
    /// Load-balancing priority (higher is preferred).
    pub priority: u32,
    /// Status.
    pub status: NodeStatus,
    /// Registration time (unix nanoseconds).
    pub registered_at: i64,
    /// Last heartbeat (unix nanoseconds).
    pub last_heartbeat: i64,
    /// Heartbeats received.
    pub heartbeat_count: u64,
    /// Whether this is the local node.
    pub is_local: bool,
}

/// A node as values.
pub struct NodeView {
    pub id: Seq<char>,
    pub name: Seq<char>,
    pub role: NodeRole,
    pub region: Seq<char>,
    pub addr: Seq<char>,
    pub capabilities: Seq<String>,
    pub priority: u32,
    pub status: NodeStatus,
    pub registered_at: i64,
    pub last_heartbeat: i64,
    pub heartbeat_count: u64,
    pub is_local: bool,
}

impl View for ClusterNode {
    type V = NodeView;

    open spec fn view(&self) -> NodeView {
        NodeView {
            id: self.id@,
            name: self.name@,
            role: self.role,
            region: self.region.0@,
            addr: self.addr@,
            capabilities: self.capabilities@,
            priority: self.priority,
            status: self.status,
            registered_at: self.registered_at,
            last_heartbeat: self.last_heartbeat,
            heartbeat_count: self.heartbeat_count,
            is_local: self.is_local,
        }
    }
}

/// Whether a heartbeat at `last` is stale at `now` for a threshold in
/// seconds: more than the threshold has elapsed.
pub open spec fn heartbeat_stale(last: i64, now: i64, threshold_seconds: u64) -> bool {
    now - last > threshold_seconds * 1_000_000_000
}

impl ClusterNode {
    /// A healthy node registered now, priority 0, no capabilities, not local.
    pub fn new(id: &str, name: &str, role: NodeRole, region: NodeRegion, addr: &str) -> (n: ClusterNode)
        ensures
            n.id@ == id@,
            n.name@ == name@,
            n.role == role,
            n.region == region,
            n.addr@ == addr@,
            n.capabilities@.len() == 0,
            n.priority == 0,
            n.status == NodeStatus::Healthy,
            n.registered_at == n.last_heartbeat,
            n.heartbeat_count == 0,
            !n.is_local,
    {
        let now = now_unix_nanos();
        ClusterNode {
            id: id.to_owned(),
            name: name.to_owned(),
            role,
            region,
            addr: addr.to_owned(),
            capabilities: Vec::new(),
            priority: 0,
            status: NodeStatus::Healthy,
            registered_at: now,
            last_heartbeat: now,
            heartbeat_count: 0,
            is_local: false,
        }
    }

    /// An independent copy.
    pub fn duplicate(&self) -> (n: ClusterNode)
        ensures
            n@ == self@,
    {
        ClusterNode {
            id: self.id.clone(),
            name: self.name.clone(),
            role: self.role,
            region: NodeRegion(self.region.0.clone()),
            addr: self.addr.clone(),
            capabilities: crate::text::copy_strings(&self.capabilities),
            priority: self.priority,
            status: self.status,
            registered_at: self.registered_at,
            last_heartbeat: self.last_heartbeat,
            heartbeat_count: self.heartbeat_count,
            is_local: self.is_local,
        }
    }

    /// Whether the last heartbeat is older than the threshold at time `now`.
    pub fn is_heartbeat_stale_at(&self, threshold_seconds: u64, now: i64) -> (b: bool)
        requires
            threshold_seconds * 1_000_000_000 <= i64::MAX,
        ensures
            b == heartbeat_stale(self.last_heartbeat, now, threshold_seconds),
    {
        let threshold_ns = (threshold_seconds as i128) * 1_000_000_000;
        (now as i128) - (self.last_heartbeat as i128) > threshold_ns
    }

    /// Whether the last heartbeat is older than the threshold now.
    pub fn is_heartbeat_stale(&self, threshold_seconds: u64) -> (b: bool)
        requires
            threshold_seconds * 1_000_000_000 <= i64::MAX,
        ensures
            exists|now: i64| b == #[trigger] heartbeat_stale(self.last_heartbeat, now, threshold_seconds),
    {
        let now = now_unix_nanos();
        self.is_heartbeat_stale_at(threshold_seconds, now)
    }
}

/// Cluster-wide statistics.
#[derive(Debug)]
pub struct ClusterStats {
    /// Number of nodes.
    pub total_nodes: usize,
    /// Healthy nodes.
    pub healthy_nodes: usize,
    /// Degraded nodes.
    pub degraded_nodes: usize,
    /// Unhealthy nodes.
    pub unhealthy_nodes: usize,
    /// Offline nodes.
    pub offline_nodes: usize,
    /// Nodes per role name.
    pub by_role: crate::counts::CountMap,
    /// Nodes per region.
    pub by_region: crate::counts::CountMap,
}

} // verus!
