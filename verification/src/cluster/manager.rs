//! The cluster manager: node registry, heartbeats, failover and picking.
//!
//! Nodes are kept in registration order under distinct ids. Picking a
//! node takes the healthy node of highest priority (the earliest
//! registered among equals); a node whose heartbeat is older than
//! [`HEARTBEAT_TIMEOUT_SECONDS`] is taken offline by the reaper and comes
//! back as healthy with its next heartbeat.

use vstd::prelude::*;
use crate::cluster::types::{ClusterNode, ClusterStats, NodeId, NodeRegion, NodeRole, NodeStatus, NodeView, heartbeat_stale, role_name};
use crate::counts::{CountMap, counts_of};
use crate::keyed::{keyed_map, keys_distinct, lemma_keyed_map_contents, lemma_keyed_map_push, lemma_keyed_map_remove, lemma_keyed_map_update};
use crate::platform::events::{EventBus, PayloadView, bus_wf, emit_on, emitted};
use crate::seq_facts::{lemma_filter_all, lemma_filter_take_step, lemma_filter_take_zero, lemma_take_full};
use crate::sys::now_unix_nanos;
use crate::text::str_eq;

verus! {

/// Heartbeat timeout: three missed heartbeats at five-second intervals.
pub const HEARTBEAT_TIMEOUT_SECONDS: u64 = 15;

/// Error of a cluster operation.
#[derive(Debug)]
pub enum ClusterError {
    /// No node has this id.
    NotFound(NodeId),
    /// A node with this id is already registered.
    AlreadyExists(NodeId),
    /// No healthy node is available.
    NoHealthyNodes,
}

impl ClusterError {
    /// The error message.
    pub fn to_string(&self) -> (s: String)
        ensures
            s@ == match self {
                ClusterError::NotFound(id) => "node not found: "@ + id@,
                ClusterError::AlreadyExists(id) => "node already registered: "@ + id@,
                ClusterError::NoHealthyNodes => "no healthy nodes available"@,
            },
    {
        match self {
            ClusterError::NotFound(id) => {
                let mut s = "node not found: ".to_owned();
                crate::text::push_str(&mut s, id.as_str());
                s
            },
            ClusterError::AlreadyExists(id) => {
                let mut s = "node already registered: ".to_owned();
                crate::text::push_str(&mut s, id.as_str());
                s
            },
            ClusterError::NoHealthyNodes => "no healthy nodes available".to_owned(),
        }
    }
}

/// The key of a node view.
pub open spec fn node_key() -> spec_fn(NodeView) -> Seq<char> {
    |n: NodeView| n.id
}

/// The nodes that a listing selects: of the role and in the region where
/// those are given, and healthy where asked.
pub open spec fn selected(role: Option<NodeRole>, region: Option<Seq<char>>, healthy_only: bool) -> spec_fn(NodeView) -> bool {
    |n: NodeView|
        (match role {
            Some(r) => n.role == r,
            None => true,
        }) && (match region {
            Some(g) => n.region == g,
            None => true,
        }) && (healthy_only ==> n.status == NodeStatus::Healthy)
}

/// The predicate "has this status".
pub open spec fn has_status(s: NodeStatus) -> spec_fn(NodeView) -> bool {
    |n: NodeView| n.status == s
}

/// Number of nodes of `nodes` with status `s`.
pub open spec fn status_count(nodes: Seq<NodeView>, s: NodeStatus) -> nat {
    nodes.filter(has_status(s)).len()
}

/// `n` with its status replaced.
pub open spec fn with_status(n: NodeView, s: NodeStatus) -> NodeView {
    NodeView {
        id: n.id,
        name: n.name,
        role: n.role,
        region: n.region,
        addr: n.addr,
        capabilities: n.capabilities,
        priority: n.priority,
        status: s,
        registered_at: n.registered_at,
        last_heartbeat: n.last_heartbeat,
        heartbeat_count: n.heartbeat_count,
        is_local: n.is_local,
    }
}

/// `n` is `given` as registered: its heartbeat clock starts at its
/// registration time and no heartbeat has been counted.
pub open spec fn registered_as(given: NodeView, n: NodeView) -> bool {
    &&& n.id == given.id && n.name == given.name && n.role == given.role && n.region == given.region
    &&& n.addr == given.addr && n.capabilities == given.capabilities && n.priority == given.priority
    &&& n.status == given.status && n.is_local == given.is_local
    &&& n.last_heartbeat == n.registered_at
    &&& n.heartbeat_count == 0
}

/// `n` is `o` after a heartbeat: one more heartbeat is counted, and an
/// offline or unhealthy node is healthy again.
pub open spec fn after_heartbeat(o: NodeView, n: NodeView) -> bool {
    &&& n.id == o.id && n.name == o.name && n.role == o.role && n.region == o.region
    &&& n.addr == o.addr && n.capabilities == o.capabilities && n.priority == o.priority
    &&& n.registered_at == o.registered_at && n.is_local == o.is_local
    &&& n.heartbeat_count == o.heartbeat_count + 1
    &&& n.status == (if o.status == NodeStatus::Offline || o.status == NodeStatus::Unhealthy {
        NodeStatus::Healthy
    } else {
        o.status
    })
}

/// Whether the reaper takes `n` offline at time `now`.
pub open spec fn reapable(now: i64) -> spec_fn(NodeView) -> bool {
    |n: NodeView| n.status != NodeStatus::Offline && heartbeat_stale(n.last_heartbeat, now, HEARTBEAT_TIMEOUT_SECONDS)
}

/// The node list after reaping at `now`.
pub open spec fn reaped_nodes(nodes: Seq<NodeView>, now: i64) -> Seq<NodeView> {
    nodes.map_values(|n: NodeView| if reapable(now)(n) { with_status(n, NodeStatus::Offline) } else { n })
}

/// The nodes taken offline by reaping at `now`, in registration order.
pub open spec fn taken_offline(nodes: Seq<NodeView>, now: i64) -> Seq<NodeView> {
    nodes.filter(reapable(now)).map_values(|n: NodeView| with_status(n, NodeStatus::Offline))
}

/// The views of a list of nodes.
pub open spec fn node_views(v: Seq<ClusterNode>) -> Seq<NodeView> {
    v.map_values(|n: ClusterNode| n@)
}

/// A region name as an optional value.
pub open spec fn opt_region(r: Option<&str>) -> Option<Seq<char>> {
    match r {
        Some(g) => Some(g@),
        None => None,
    }
}

/// The cluster manager.
#[derive(Debug)]
pub struct ClusterManager {
    nodes: Vec<ClusterNode>,
    local_node_id: Option<String>,
    event_bus: Option<EventBus>,
}

impl Default for ClusterManager {
    fn default() -> (m: ClusterManager)
        ensures
            m.wf(),
            m.node_seq() == Seq::<NodeView>::empty(),
            m.local_id() is None,
            m.event_bus() is None,
    {
        ClusterManager::new()
    }
}

impl ClusterManager {
    /// The nodes in registration order.
    pub closed spec fn node_seq(&self) -> Seq<NodeView> {
        node_views(self.nodes@)
    }

    /// The nodes by id.
    pub open spec fn nodes(&self) -> Map<Seq<char>, NodeView> {
        keyed_map(self.node_seq(), node_key())
    }

    /// The id of the local node, if set.
    pub closed spec fn local_id(&self) -> Option<Seq<char>> {
        match self.local_node_id {
            Some(s) => Some(s@),
            None => None,
        }
    }

    /// The attached event bus.
    pub closed spec fn event_bus(&self) -> Option<EventBus> {
        self.event_bus
    }

    /// Well-formedness: ids are distinct and the event bus is well formed.
    pub closed spec fn wf(&self) -> bool {
        &&& keys_distinct(self.node_seq(), node_key())
        &&& bus_wf(self.event_bus)
    }

    /// An empty manager without event bus.
    pub fn new() -> (m: ClusterManager)
        ensures
            m.wf(),
            m.node_seq() == Seq::<NodeView>::empty(),
            m.local_id() is None,
            m.event_bus() is None,
    {
        let m = ClusterManager { nodes: Vec::new(), local_node_id: None, event_bus: None };
        assert(m.node_seq() =~= Seq::<NodeView>::empty());
        m
    }

    /// Attach an event bus: registrations, failures and departures are
    /// published on it.
    pub fn with_event_bus(self, bus: EventBus) -> (m: ClusterManager)
        requires
            self.wf(),
            bus.wf(),
        ensures
            m.wf(),
            m.node_seq() == self.node_seq(),
            m.local_id() == self.local_id(),
            m.event_bus() == Some(bus),
    {
        ClusterManager { nodes: self.nodes, local_node_id: self.local_node_id, event_bus: Some(bus) }
    }

    /// The attached event bus.
    pub fn events(&self) -> (b: Option<&EventBus>)
        ensures
            match b {
                Some(b) => self.event_bus() == Some(*b),
                None => self.event_bus() is None,
            },
    {
        match &self.event_bus {
            Some(b) => Some(b),
            None => None,
        }
    }

    /// Every id occurs once: the map has one entry per node.
    pub proof fn lemma_nodes(&self)
        requires
            self.wf(),
        ensures
            forall|k: Seq<char>| #[trigger] self.nodes().contains_key(k) <==> exists|i: int|
                0 <= i < self.node_seq().len() && self.node_seq()[i].id == k,
            forall|i: int| 0 <= i < self.node_seq().len() ==> #[trigger] self.nodes()[self.node_seq()[i].id]
                == self.node_seq()[i],
            self.nodes().len() == self.node_seq().len(),
    {
        lemma_keyed_map_contents(self.node_seq(), node_key());
    }

    /// Number of registered nodes.
    pub fn node_count(&self) -> (n: usize)
        requires
            self.wf(),
        ensures
            n == self.nodes().len(),
            n == self.node_seq().len(),
    {
        proof {
            self.lemma_nodes();
        }
        self.nodes.len()
    }

    fn count_status(&self, s: NodeStatus) -> (n: usize)
        ensures
            n == status_count(self.node_seq(), s),
    {
        let ghost all = self.node_seq();
        let mut n: usize = 0;
        let mut i: usize = 0;
        proof {
            lemma_filter_take_zero(all, has_status(s));
        }
        while i < self.nodes.len()
            invariant
                i <= self.nodes@.len(),
                all == self.node_seq(),
                n == all.take(i as int).filter(has_status(s)).len(),
                n <= i,
            decreases self.nodes@.len() - i,
        {
            proof {
                lemma_filter_take_step(all, has_status(s), i as int);
            }
            assert(all[i as int] == self.nodes@[i as int]@);
            if self.nodes[i].status == s {
                n = n + 1;
            }
            i = i + 1;
        }
        proof {
            lemma_take_full(all);
        }
        n
    }

    /// Number of healthy nodes.
    pub fn healthy_count(&self) -> (n: usize)
        ensures
            n == status_count(self.node_seq(), NodeStatus::Healthy),
    {
        self.count_status(NodeStatus::Healthy)
    }

    fn find(&self, id: &str) -> (r: Option<usize>)
        requires
            self.wf(),
        ensures
            match r {
                Some(i) => i < self.nodes@.len() && self.nodes@[i as int].id@ == id@
                    && self.nodes().contains_key(id@) && self.nodes()[id@] == self.nodes@[i as int]@,
                None => !self.nodes().contains_key(id@),
            },
    {
        let ghost vs = self.node_seq();
        proof {
            self.lemma_nodes();
        }
        let mut i: usize = 0;
        while i < self.nodes.len()
            invariant
                i <= self.nodes@.len(),
                self.wf(),
                vs == self.node_seq(),
                keys_distinct(vs, node_key()),
                forall|j: int| 0 <= j < i ==> self.nodes@[j].id@ != id@,
            decreases self.nodes@.len() - i,
        {
            if str_eq(self.nodes[i].id.as_str(), id) {
                assert(vs[i as int] == self.nodes@[i as int]@);
                proof {
                    self.lemma_nodes();
                }
                return Some(i);
            }
            i = i + 1;
        }
        proof {
            if self.nodes().contains_key(id@) {
                let j = choose|j: int| 0 <= j < vs.len() && vs[j].id == id@;
                assert(vs[j] == self.nodes@[j]@);
            }
        }
        None
    }

    fn emit(&mut self, name: &str, id: &str)
        requires
            old(self).wf(),
        ensures
            final(self).wf(),
            final(self).nodes@ == old(self).nodes@,
            final(self).local_node_id == old(self).local_node_id,
            emitted(old(self).event_bus, final(self).event_bus, name@, id@),
    {
        emit_on(&mut self.event_bus, name, id);
    }

    fn replace(&mut self, i: usize, n: ClusterNode)
        requires
            old(self).wf(),
            i < old(self).nodes@.len(),
            n.id@ == old(self).nodes@[i as int].id@,
        ensures
            final(self).wf(),
            final(self).node_seq() == old(self).node_seq().update(i as int, n@),
            final(self).nodes() == old(self).nodes().insert(n.id@, n@),
            final(self).local_id() == old(self).local_id(),
            final(self).event_bus() == old(self).event_bus(),
    {
        let ghost prev = self.node_seq();
        proof {
            assert(prev[i as int] == self.nodes@[i as int]@);
            lemma_keyed_map_update(prev, node_key(), i as int, n@);
        }
        self.nodes.set(i, n);
        assert(self.node_seq() =~= prev.update(i as int, self.nodes@[i as int]@));
    }

    /// Register a node. Its registration time is now, its heartbeat clock
    /// starts there and its heartbeat count at zero.
    pub fn register(&mut self, node: ClusterNode) -> (r: Result<ClusterNode, ClusterError>)
        requires
            old(self).wf(),
        ensures
            final(self).wf(),
            final(self).local_id() == old(self).local_id(),
            match r {
                Ok(n) => {
                    &&& !old(self).nodes().contains_key(node.id@)
                    &&& registered_as(node@, n@)
                    &&& final(self).node_seq() == old(self).node_seq().push(n@)
                    &&& final(self).nodes() == old(self).nodes().insert(node.id@, n@)
                    &&& emitted(old(self).event_bus(), final(self).event_bus(), "cluster.node_registered"@, node.id@)
                },
                Err(ClusterError::AlreadyExists(id)) => {
                    &&& old(self).nodes().contains_key(node.id@)
                    &&& id@ == node.id@
                    &&& final(self).node_seq() == old(self).node_seq()
                    &&& final(self).event_bus() == old(self).event_bus()
                },
                Err(_) => false,
            },
    {
        if let Some(_) = self.find(node.id.as_str()) {
            return Err(ClusterError::AlreadyExists(node.id.clone()));
        }
        let mut node = node;
        let now = now_unix_nanos();
        node.registered_at = now;
        node.last_heartbeat = now;
        node.heartbeat_count = 0;
        let out = node.duplicate();
        let id = node.id.clone();
        let ghost prev = self.node_seq();
        let ghost nv = node@;
        proof {
            self.lemma_nodes();
            assert forall|i: int| 0 <= i < prev.len() implies node_key()(prev[i]) != node_key()(nv) by {
                if node_key()(prev[i]) == node_key()(nv) {
                    assert(old(self).nodes().contains_key(nv.id));
                }
            }
            lemma_keyed_map_push(prev, node_key(), nv);
        }
        self.nodes.push(node);
        assert(self.node_seq() =~= prev.push(nv));
        self.emit("cluster.node_registered", id.as_str());
        Ok(out)
    }

    /// Deregister a node; the local node id is cleared if it was this one.
    pub fn deregister(&mut self, id: &str) -> (r: Result<(), ClusterError>)
        requires
            old(self).wf(),
        ensures
            final(self).wf(),
            match r {
                Ok(()) => {
                    &&& old(self).nodes().contains_key(id@)
                    &&& final(self).nodes() == old(self).nodes().remove(id@)
                    &&& final(self).local_id() == (if old(self).local_id() == Some(id@) {
                        None
                    } else {
                        old(self).local_id()
                    })
                    &&& emitted(old(self).event_bus(), final(self).event_bus(), "cluster.node_deregistered"@, id@)
                },
                Err(ClusterError::NotFound(e)) => {
                    &&& !old(self).nodes().contains_key(id@)
                    &&& e@ == id@
                    &&& final(self).node_seq() == old(self).node_seq()
                    &&& final(self).local_id() == old(self).local_id()
                    &&& final(self).event_bus() == old(self).event_bus()
                },
                Err(_) => false,
            },
    {
        let i = match self.find(id) {
            Some(i) => i,
            None => {
                return Err(ClusterError::NotFound(id.to_owned()));
            },
        };
        let ghost prev = self.node_seq();
        proof {
            assert(prev[i as int] == self.nodes@[i as int]@);
            lemma_keyed_map_remove(prev, node_key(), i as int);
        }
        self.nodes.remove(i);
        assert(self.node_seq() =~= prev.remove(i as int));
        let clear = match &self.local_node_id {
            Some(l) => str_eq(l.as_str(), id),
            None => false,
        };
        if clear {
            self.local_node_id = None;
        }
        self.emit("cluster.node_deregistered", id);
        Ok(())
    }

    /// Record a heartbeat: the heartbeat clock is now, one more heartbeat
    /// is counted, and an offline or unhealthy node is healthy again.
    pub fn heartbeat(&mut self, id: &str) -> (r: Result<ClusterNode, ClusterError>)
        requires
            old(self).wf(),
            old(self).nodes().contains_key(id@) ==> old(self).nodes()[id@].heartbeat_count < u64::MAX,
        ensures
            final(self).wf(),
            final(self).local_id() == old(self).local_id(),
            final(self).event_bus() == old(self).event_bus(),
            match r {
                Ok(n) => {
                    &&& old(self).nodes().contains_key(id@)
                    &&& after_heartbeat(old(self).nodes()[id@], n@)
                    &&& final(self).nodes() == old(self).nodes().insert(id@, n@)
                },
                Err(ClusterError::NotFound(e)) => !old(self).nodes().contains_key(id@) && e@ == id@
                    && final(self).node_seq() == old(self).node_seq(),
                Err(_) => false,
            },
    {
        let i = match self.find(id) {
            Some(i) => i,
            None => {
                return Err(ClusterError::NotFound(id.to_owned()));
            },
        };
        let mut n = self.nodes[i].duplicate();
        n.last_heartbeat = now_unix_nanos();
        n.heartbeat_count = n.heartbeat_count + 1;
        if n.status == NodeStatus::Offline || n.status == NodeStatus::Unhealthy {
            n.status = NodeStatus::Healthy;
        }
        let out = n.duplicate();
        self.replace(i, n);
        Ok(out)
    }

    fn set_status(&mut self, id: &str, s: NodeStatus) -> (r: Result<ClusterNode, ClusterError>)
        requires
            old(self).wf(),
        ensures
            final(self).wf(),
            final(self).local_id() == old(self).local_id(),
            final(self).event_bus() == old(self).event_bus(),
            match r {
                Ok(n) => {
                    &&& old(self).nodes().contains_key(id@)
                    &&& n@ == with_status(old(self).nodes()[id@], s)
                    &&& final(self).nodes() == old(self).nodes().insert(id@, n@)
                },
                Err(ClusterError::NotFound(e)) => !old(self).nodes().contains_key(id@) && e@ == id@
                    && final(self).node_seq() == old(self).node_seq(),
                Err(_) => false,
            },
    {
        let i = match self.find(id) {
            Some(i) => i,
            None => {
                return Err(ClusterError::NotFound(id.to_owned()));
            },
        };
        let mut n = self.nodes[i].duplicate();
        n.status = s;
        let out = n.duplicate();
        self.replace(i, n);
        Ok(out)
    }

    /// Mark a node unhealthy (published on the event bus).
    pub fn mark_unhealthy(&mut self, id: &str) -> (r: Result<ClusterNode, ClusterError>)
        requires
            old(self).wf(),
        ensures
            final(self).wf(),
            final(self).local_id() == old(self).local_id(),
            match r {
                Ok(n) => {
                    &&& old(self).nodes().contains_key(id@)
                    &&& n@ == with_status(old(self).nodes()[id@], NodeStatus::Unhealthy)
                    &&& final(self).nodes() == old(self).nodes().insert(id@, n@)
                    &&& emitted(old(self).event_bus(), final(self).event_bus(), "cluster.node_unhealthy"@, id@)
                },
                Err(ClusterError::NotFound(e)) => !old(self).nodes().contains_key(id@) && e@ == id@
                    && final(self).node_seq() == old(self).node_seq()
                    && final(self).event_bus() == old(self).event_bus(),
                Err(_) => false,
            },
    {
        let r = self.set_status(id, NodeStatus::Unhealthy);
        if r.is_ok() {
            self.emit("cluster.node_unhealthy", id);
        }
        r
    }

    /// Mark a node degraded.
    pub fn mark_degraded(&mut self, id: &str) -> (r: Result<ClusterNode, ClusterError>)
        requires
            old(self).wf(),
        ensures
            final(self).wf(),
            final(self).local_id() == old(self).local_id(),
            final(self).event_bus() == old(self).event_bus(),
            match r {
                Ok(n) => {
                    &&& old(self).nodes().contains_key(id@)
                    &&& n@ == with_status(old(self).nodes()[id@], NodeStatus::Degraded)
                    &&& final(self).nodes() == old(self).nodes().insert(id@, n@)
                },
                Err(ClusterError::NotFound(e)) => !old(self).nodes().contains_key(id@) && e@ == id@
                    && final(self).node_seq() == old(self).node_seq(),
                Err(_) => false,
            },
    {
        self.set_status(id, NodeStatus::Degraded)
    }

    /// The node with this id.
    pub fn get(&self, id: &str) -> (r: Option<ClusterNode>)
        requires
            self.wf(),
        ensures
            match r {
                Some(n) => self.nodes().contains_key(id@) && n@ == self.nodes()[id@],
                None => !self.nodes().contains_key(id@),
            },
    {
        match self.find(id) {
            Some(i) => Some(self.nodes[i].duplicate()),
            None => None,
        }
    }

    fn node_matches(n: &ClusterNode, role: Option<NodeRole>, region: Option<&str>, healthy_only: bool) -> (b: bool)
        ensures
            b == selected(role, opt_region(region), healthy_only)(n@),
    {
        let role_ok = match role {
            Some(r) => n.role == r,
            None => true,
        };
        let region_ok = match region {
            Some(g) => str_eq(n.region.0.as_str(), g),
            None => true,
        };
        role_ok && region_ok && (!healthy_only || n.status == NodeStatus::Healthy)
    }

    fn select(&self, role: Option<NodeRole>, region: Option<&str>, healthy_only: bool) -> (r: Vec<ClusterNode>)
        ensures
            node_views(r@) == self.node_seq().filter(selected(role, opt_region(region), healthy_only)),
    {
        let ghost all = self.node_seq();
        let ghost p = selected(role, opt_region(region), healthy_only);
        let mut out: Vec<ClusterNode> = Vec::new();
        let mut i: usize = 0;
        proof {
            lemma_filter_take_zero(all, p);
        }
        while i < self.nodes.len()
            invariant
                i <= self.nodes@.len(),
                all == self.node_seq(),
                p == selected(role, opt_region(region), healthy_only),
                node_views(out@) == all.take(i as int).filter(p),
            decreases self.nodes@.len() - i,
        {
            proof {
                lemma_filter_take_step(all, p, i as int);
            }
            assert(all[i as int] == self.nodes@[i as int]@);
            if Self::node_matches(&self.nodes[i], role, region, healthy_only) {
                let n = self.nodes[i].duplicate();
                let ghost prev = node_views(out@);
                let ghost nv = n@;
                out.push(n);
                assert(node_views(out@) =~= prev.push(nv));
            }
            i = i + 1;
        }
        proof {
            lemma_take_full(all);
        }
        out
    }

    /// All nodes, in registration order.
    pub fn list(&self) -> (r: Vec<ClusterNode>)
        ensures
            node_views(r@) == self.node_seq(),
    {
        let r = self.select(None, None, false);
        proof {
            let p = selected(None, None, false);
            assert forall|i: int| 0 <= i < self.node_seq().len() implies p(#[trigger] self.node_seq()[i]) by {}
            lemma_filter_all(self.node_seq(), p);
        }
        r
    }

    /// The nodes of a role, in registration order.
    pub fn list_by_role(&self, role: NodeRole) -> (r: Vec<ClusterNode>)
        ensures
            node_views(r@) == self.node_seq().filter(selected(Some(role), None, false)),
    {
        self.select(Some(role), None, false)
    }

    /// The nodes in a region, in registration order.
    pub fn list_by_region(&self, region: &str) -> (r: Vec<ClusterNode>)
        ensures
            node_views(r@) == self.node_seq().filter(selected(None, Some(region@), false)),
    {
        self.select(None, Some(region), false)
    }

    /// The healthy nodes, in registration order.
    pub fn list_healthy(&self) -> (r: Vec<ClusterNode>)
        ensures
            node_views(r@) == self.node_seq().filter(selected(None, None, true)),
    {
        self.select(None, None, true)
    }

    fn best(&self, region: Option<&str>) -> (r: Option<usize>)
        ensures
            match r {
                Some(i) => {
                    &&& i < self.node_seq().len()
                    &&& selected(None, opt_region(region), true)(self.node_seq()[i as int])
                    &&& forall|j: int| 0 <= j < self.node_seq().len() && #[trigger] selected(None, opt_region(region), true)(
                        self.node_seq()[j],
                    ) ==> self.node_seq()[j].priority <= self.node_seq()[i as int].priority
                    &&& forall|j: int| 0 <= j < i && #[trigger] selected(None, opt_region(region), true)(
                        self.node_seq()[j],
                    ) ==> self.node_seq()[j].priority < self.node_seq()[i as int].priority
                },
                None => forall|j: int| 0 <= j < self.node_seq().len() ==> !#[trigger] selected(
                    None,
                    opt_region(region),
                    true,
                )(self.node_seq()[j]),
            },
    {
        let ghost all = self.node_seq();
        let ghost p = selected(None, opt_region(region), true);
        let mut best: Option<usize> = None;
        let mut i: usize = 0;
        while i < self.nodes.len()
            invariant
                i <= self.nodes@.len(),
                all == self.node_seq(),
                all.len() == self.nodes@.len(),
                p == selected(None, opt_region(region), true),
                match best {
                    Some(b) => {
                        &&& b < i
                        &&& p(all[b as int])
                        &&& forall|j: int| 0 <= j < i && #[trigger] p(all[j]) ==> all[j].priority <= all[b as int].priority
                        &&& forall|j: int| 0 <= j < b && #[trigger] p(all[j]) ==> all[j].priority < all[b as int].priority
                    },
                    None => forall|j: int| 0 <= j < i ==> !#[trigger] p(all[j]),
                },
            decreases self.nodes@.len() - i,
        {
            assert(all[i as int] == self.nodes@[i as int]@);
            if Self::node_matches(&self.nodes[i], None, region, true) {
                match best {
                    Some(b) => {
                        assert(all[b as int] == self.nodes@[b as int]@);
                        if self.nodes[i].priority > self.nodes[b].priority {
                            best = Some(i);
                        }
                    },
                    None => {
                        best = Some(i);
                    },
                }
            }
            i = i + 1;
        }
        best
    }

    /// The healthy node of highest priority (the earliest registered among
    /// equals).
    pub fn pick_node(&self) -> (r: Result<ClusterNode, ClusterError>)
        ensures
            match r {
                Ok(n) => {
                    &&& exists|i: int| 0 <= i < self.node_seq().len() && self.node_seq()[i] == n@
                    &&& n@.status == NodeStatus::Healthy
                    &&& forall|j: int| 0 <= j < self.node_seq().len() && #[trigger] self.node_seq()[j].status
                        == NodeStatus::Healthy ==> self.node_seq()[j].priority <= n@.priority
                },
                Err(ClusterError::NoHealthyNodes) => forall|j: int| 0 <= j < self.node_seq().len()
                    ==> #[trigger] self.node_seq()[j].status != NodeStatus::Healthy,
                Err(_) => false,
            },
    {
        match self.best(None) {
            Some(i) => {
                let n = self.nodes[i].duplicate();
                assert(self.node_seq()[i as int] == self.nodes@[i as int]@);
                proof {
                    assert forall|j: int| 0 <= j < self.node_seq().len() && #[trigger] self.node_seq()[j].status
                        == NodeStatus::Healthy implies self.node_seq()[j].priority <= n@.priority by {
                        assert(selected(None, opt_region(None), true)(self.node_seq()[j]));
                    }
                }
                Ok(n)
            },
            None => {
                proof {
                    assert forall|j: int| 0 <= j < self.node_seq().len() implies #[trigger] self.node_seq()[j].status
                        != NodeStatus::Healthy by {
                        assert(!selected(None, opt_region(None), true)(self.node_seq()[j]));
                    }
                }
                Err(ClusterError::NoHealthyNodes)
            },
        }
    }

    /// The healthy node of highest priority in a region (the earliest
    /// registered among equals).
    pub fn pick_node_in_region(&self, region: &str) -> (r: Result<ClusterNode, ClusterError>)
        ensures
            match r {
                Ok(n) => {
                    &&& exists|i: int| 0 <= i < self.node_seq().len() && self.node_seq()[i] == n@
                    &&& n@.status == NodeStatus::Healthy
                    &&& n@.region == region@
                    &&& forall|j: int| 0 <= j < self.node_seq().len() && #[trigger] self.node_seq()[j].status
                        == NodeStatus::Healthy && self.node_seq()[j].region == region@ ==> self.node_seq()[j].priority
                        <= n@.priority
                },
                Err(ClusterError::NoHealthyNodes) => forall|j: int| 0 <= j < self.node_seq().len()
                    ==> #[trigger] self.node_seq()[j].status != NodeStatus::Healthy || self.node_seq()[j].region
                    != region@,
                Err(_) => false,
            },
    {
        match self.best(Some(region)) {
            Some(i) => {
                let n = self.nodes[i].duplicate();
                assert(self.node_seq()[i as int] == self.nodes@[i as int]@);
                proof {
                    assert forall|j: int| 0 <= j < self.node_seq().len() && #[trigger] self.node_seq()[j].status
                        == NodeStatus::Healthy && self.node_seq()[j].region == region@ implies self.node_seq()[j].priority
                        <= n@.priority by {
                        assert(selected(None, opt_region(Some(region)), true)(self.node_seq()[j]));
                    }
                }
                Ok(n)
            },
            None => {
                proof {
                    assert forall|j: int| 0 <= j < self.node_seq().len() implies #[trigger] self.node_seq()[j].status
                        != NodeStatus::Healthy || self.node_seq()[j].region != region@ by {
                        assert(!selected(None, opt_region(Some(region)), true)(self.node_seq()[j]));
                    }
                }
                Err(ClusterError::NoHealthyNodes)
            },
        }
    }

    /// Set the id of the local node.
    pub fn set_local(&mut self, id: &str)
        ensures
            final(self).local_id() == Some(id@),
            final(self).node_seq() == old(self).node_seq(),
            final(self).event_bus() == old(self).event_bus(),
            final(self).wf() == old(self).wf(),
    {
        self.local_node_id = Some(id.to_owned());
    }

    /// The local node, if its id is set and registered.
    pub fn get_local(&self) -> (r: Option<ClusterNode>)
        requires
            self.wf(),
        ensures
            match r {
                Some(n) => self.local_id() matches Some(l) && self.nodes().contains_key(l) && n@ == self.nodes()[l],
                None => self.local_id() matches Some(l) ==> !self.nodes().contains_key(l),
            },
    {
        match &self.local_node_id {
            Some(l) => self.get(l.as_str()),
            None => None,
        }
    }

    /// Take offline every node that is not offline and whose heartbeat is
    /// older than the timeout at time `now`; returns those nodes, each
    /// published as `cluster.node_offline`.
    pub fn reap_stale_nodes_at(&mut self, now: i64) -> (r: Vec<ClusterNode>)
        requires
            old(self).wf(),
        ensures
            final(self).wf(),
            final(self).node_seq() == reaped_nodes(old(self).node_seq(), now),
            node_views(r@) == taken_offline(old(self).node_seq(), now),
            final(self).local_id() == old(self).local_id(),
            offline_events(old(self).event_bus(), final(self).event_bus(), node_views(r@)),
    {
        let ghost old_seq = self.node_seq();
        let ghost p = reapable(now);
        let mut reaped: Vec<ClusterNode> = Vec::new();
        let mut i: usize = 0;
        proof {
            lemma_filter_take_zero(old_seq, p);
        }
        while i < self.nodes.len()
            invariant
                self.wf(),
                i <= self.nodes@.len(),
                self.nodes@.len() == old_seq.len(),
                p == reapable(now),
                self.local_id() == old(self).local_id(),
                self.event_bus == old(self).event_bus,
                forall|j: int| 0 <= j < i ==> #[trigger] self.node_seq()[j] == reaped_nodes(old_seq, now)[j],
                forall|j: int| i <= j < old_seq.len() ==> #[trigger] self.node_seq()[j] == old_seq[j],
                node_views(reaped@) == old_seq.take(i as int).filter(p).map_values(
                    |n: NodeView| with_status(n, NodeStatus::Offline),
                ),
            decreases self.nodes@.len() - i,
        {
            proof {
                lemma_filter_take_step(old_seq, p, i as int);
            }
            assert(self.node_seq()[i as int] == self.nodes@[i as int]@);
            if self.nodes[i].status != NodeStatus::Offline && self.nodes[i].is_heartbeat_stale_at(
                HEARTBEAT_TIMEOUT_SECONDS,
                now,
            ) {
                let mut n = self.nodes[i].duplicate();
                n.status = NodeStatus::Offline;
                let copy = n.duplicate();
                let ghost prev_out = node_views(reaped@);
                let ghost before = self.node_seq();
                self.replace(i, n);
                reaped.push(copy);
                proof {
                    assert(node_views(reaped@) =~= prev_out.push(copy@));
                    assert(old_seq.take(i + 1).filter(p) == old_seq.take(i as int).filter(p).push(old_seq[i as int]));
                    assert(old_seq.take(i + 1).filter(p).map_values(|n: NodeView| with_status(n, NodeStatus::Offline))
                        =~= old_seq.take(i as int).filter(p).map_values(
                        |n: NodeView| with_status(n, NodeStatus::Offline),
                    ).push(with_status(old_seq[i as int], NodeStatus::Offline)));
                    assert forall|j: int| 0 <= j < i + 1 implies #[trigger] self.node_seq()[j] == reaped_nodes(old_seq, now)[j] by {
                        if j < i {
                            assert(self.node_seq()[j] == before[j]);
                        }
                    }
                    assert forall|j: int| i + 1 <= j < old_seq.len() implies #[trigger] self.node_seq()[j] == old_seq[j] by {
                        assert(self.node_seq()[j] == before[j]);
                    }
                }
            } else {
                proof {
                    assert(!p(old_seq[i as int]));
                    assert(reaped_nodes(old_seq, now)[i as int] == old_seq[i as int]);
                }
            }
            i = i + 1;
        }
        proof {
            lemma_take_full(old_seq);
            assert(self.node_seq() =~= reaped_nodes(old_seq, now));
        }
        let ghost bus_before = self.event_bus;
        let mut k: usize = 0;
        proof {
            match bus_before {
                Some(b) => {
                    assert(node_views(reaped@).take(0).len() == 0);
                    assert(b.events().take(b.events().len() as int) =~= b.events());
                },
                None => {},
            }
        }
        while k < reaped.len()
            invariant
                self.wf(),
                k <= reaped@.len(),
                self.node_seq() == reaped_nodes(old_seq, now),
                self.local_id() == old(self).local_id(),
                bus_before == old(self).event_bus,
                bus_wf(bus_before),
                offline_events(bus_before, self.event_bus, node_views(reaped@).take(k as int)),
            decreases reaped@.len() - k,
        {
            let ghost mid = self.event_bus;
            assert(node_views(reaped@)[k as int] == reaped@[k as int]@);
            self.emit("cluster.node_offline", reaped[k].id.as_str());
            proof {
                lemma_offline_events_step(bus_before, mid, self.event_bus, node_views(reaped@), k as int);
            }
            k = k + 1;
        }
        proof {
            lemma_take_full(node_views(reaped@));
        }
        reaped
    }

    /// Take offline, at the current time, every node that is not offline
    /// and whose heartbeat is older than the timeout; returns those nodes.
    pub fn reap_stale_nodes(&mut self) -> (r: Vec<ClusterNode>)
        requires
            old(self).wf(),
        ensures
            final(self).wf(),
            exists|now: i64|
                final(self).node_seq() == #[trigger] reaped_nodes(old(self).node_seq(), now) && node_views(r@)
                    == taken_offline(old(self).node_seq(), now),
            final(self).local_id() == old(self).local_id(),
            offline_events(old(self).event_bus(), final(self).event_bus(), node_views(r@)),
    {
        let now = now_unix_nanos();
        self.reap_stale_nodes_at(now)
    }

    /// Cluster-wide statistics.
    pub fn stats(&self) -> (s: ClusterStats)
        requires
            self.wf(),
        ensures
            s.total_nodes == self.nodes().len(),
            s.healthy_nodes == status_count(self.node_seq(), NodeStatus::Healthy),
            s.degraded_nodes == status_count(self.node_seq(), NodeStatus::Degraded),
            s.unhealthy_nodes == status_count(self.node_seq(), NodeStatus::Unhealthy),
            s.offline_nodes == status_count(self.node_seq(), NodeStatus::Offline),
            s.total_nodes == s.healthy_nodes + s.degraded_nodes + s.unhealthy_nodes + s.offline_nodes,
            counts_of(s.by_role.pairs@, self.node_seq().map_values(|n: NodeView| role_name(n.role))),
            counts_of(s.by_region.pairs@, self.node_seq().map_values(|n: NodeView| n.region)),
    {
        let mut roles: Vec<String> = Vec::new();
        let mut regions: Vec<String> = Vec::new();
        let mut i: usize = 0;
        while i < self.nodes.len()
            invariant
                i <= self.nodes@.len(),
                roles@.len() == i,
                regions@.len() == i,
                forall|j: int| 0 <= j < i ==> #[trigger] roles@[j]@ == role_name(self.nodes@[j].role),
                forall|j: int| 0 <= j < i ==> #[trigger] regions@[j]@ == self.nodes@[j].region.0@,
            decreases self.nodes@.len() - i,
        {
            roles.push(self.nodes[i].role.to_string());
            regions.push(self.nodes[i].region.0.clone());
            i = i + 1;
        }
        proof {
            assert(roles@.map_values(|s: String| s@) =~= self.node_seq().map_values(|n: NodeView| role_name(n.role)));
            assert(regions@.map_values(|s: String| s@) =~= self.node_seq().map_values(|n: NodeView| n.region));
            self.lemma_nodes();
            lemma_status_partition(self.node_seq());
        }
        ClusterStats {
            total_nodes: self.nodes.len(),
            healthy_nodes: self.count_status(NodeStatus::Healthy),
            degraded_nodes: self.count_status(NodeStatus::Degraded),
            unhealthy_nodes: self.count_status(NodeStatus::Unhealthy),
            offline_nodes: self.count_status(NodeStatus::Offline),
            by_role: CountMap::count(&roles),
            by_region: CountMap::count(&regions),
        }
    }
}

/// The bus after publishing `cluster.node_offline` with the id of each of
/// `nodes`, in order: while ids last, one event per node is appended.
pub open spec fn offline_events(old_bus: Option<EventBus>, new_bus: Option<EventBus>, nodes: Seq<NodeView>) -> bool {
    match (old_bus, new_bus) {
        (Some(o), Some(n)) => {
            &&& n.wf()
            &&& n.capacity() == o.capacity()
            &&& o.events().len() + nodes.len() < u64::MAX - 1 ==> {
                &&& n.events().len() == o.events().len() + nodes.len()
                &&& n.events().take(o.events().len() as int) == o.events()
                &&& forall|j: int|
                    0 <= j < nodes.len() ==> #[trigger] n.events()[o.events().len() + j].name == "cluster.node_offline"@
                        && n.events()[o.events().len() + j].payload == PayloadView::Text(nodes[j].id)
            }
        },
        (None, None) => true,
        _ => false,
    }
}

#[verifier::spinoff_prover]
#[verifier::rlimit(40)]
proof fn lemma_offline_events_step(
    start: Option<EventBus>,
    mid: Option<EventBus>,
    end: Option<EventBus>,
    nodes: Seq<NodeView>,
    k: int,
)
    requires
        0 <= k < nodes.len(),
        bus_wf(start),
        offline_events(start, mid, nodes.take(k)),
        emitted(mid, end, "cluster.node_offline"@, nodes[k].id),
    ensures
        offline_events(start, end, nodes.take(k + 1)),
{
    match (start, mid, end) {
        (Some(o), Some(m), Some(n)) => {
            if o.events().len() + k + 1 < u64::MAX - 1 {
                let base = o.events().len();
                assert(m.events().len() == base + k);
                assert(n.events().drop_last() == m.events());
                assert(n.events().take(base as int) =~= o.events()) by {
                    assert forall|j: int| 0 <= j < base implies n.events()[j] == o.events()[j] by {
                        assert(n.events()[j] == n.events().drop_last()[j]);
                        assert(m.events()[j] == m.events().take(base as int)[j]);
                    }
                }
                assert forall|j: int| 0 <= j < k + 1 implies #[trigger] n.events()[base + j].name == "cluster.node_offline"@
                    && n.events()[base + j].payload == PayloadView::Text(nodes.take(k + 1)[j].id) by {
                    if j < k {
                        assert(n.events()[base + j] == n.events().drop_last()[base + j]);
                        assert(m.events()[base + j].name == "cluster.node_offline"@);
                        assert(nodes.take(k)[j] == nodes.take(k + 1)[j]);
                    } else {
                        assert(n.events()[base + j] == n.events().last());
                    }
                }
            }
            assert(n.wf());
            assert(n.capacity() == o.capacity());
        },
        _ => {},
    }
}

/// Every node has exactly one of the four statuses: the four counts add
/// up to the number of nodes.
pub proof fn lemma_status_partition(nodes: Seq<NodeView>)
    ensures
        status_count(nodes, NodeStatus::Healthy) + status_count(nodes, NodeStatus::Degraded) + status_count(
            nodes,
            NodeStatus::Unhealthy,
        ) + status_count(nodes, NodeStatus::Offline) == nodes.len(),
    decreases nodes.len(),
{
    reveal_with_fuel(Seq::filter, 1);
    if nodes.len() > 0 {
        lemma_status_partition(nodes.drop_last());
    }
}

} // verus!
