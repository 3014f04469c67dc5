use nexora::cluster::manager::{ClusterError, ClusterManager, HEARTBEAT_TIMEOUT_SECONDS};
use nexora::cluster::types::{ClusterNode, NodeRegion, NodeRole, NodeStatus};
use nexora::platform::events::EventBus;

fn setup() -> ClusterManager {
    ClusterManager::new().with_event_bus(EventBus::new())
}

fn sample_node(id: &str, role: NodeRole, region: NodeRegion, priority: u32) -> ClusterNode {
    let mut n = ClusterNode::new(id, &format!("{} node", id), role, region, "0.0.0.0:4433");
    n.priority = priority;
    n
}

#[test]
fn node_construction() {
    let node = ClusterNode::new("node-1", "EU-West Primary", NodeRole::Regional, NodeRegion::eu_west_1(), "10.0.0.5:4433");
    assert_eq!(node.id, "node-1");
    assert_eq!(node.role, NodeRole::Regional);
    assert_eq!(node.status, NodeStatus::Healthy);
    assert!(!node.is_local);
}

#[test]
fn heartbeat_staleness() {
    let mut node = ClusterNode::new("node-1", "Test", NodeRole::Edge, NodeRegion::edge(), "0.0.0.0:4433");
    node.last_heartbeat = 0;
    assert!(node.is_heartbeat_stale(60));
}

#[test]
fn fresh_heartbeat_not_stale() {
    let node = ClusterNode::new("node-1", "Test", NodeRole::Edge, NodeRegion::edge(), "0.0.0.0:4433");
    assert!(!node.is_heartbeat_stale(60));
}

#[test]
fn staleness_boundary_is_strict() {
    let mut node = ClusterNode::new("n", "n", NodeRole::Edge, NodeRegion::edge(), "a");
    node.last_heartbeat = 1_000;
    assert!(!node.is_heartbeat_stale_at(15, 1_000 + 15_000_000_000));
    assert!(node.is_heartbeat_stale_at(15, 1_000 + 15_000_000_001));
}

#[test]
fn role_display() {
    assert_eq!(NodeRole::Global.to_string(), "global");
    assert_eq!(NodeRole::Edge.to_string(), "edge");
}

#[test]
fn status_display() {
    assert_eq!(NodeStatus::Healthy.to_string(), "healthy");
    assert_eq!(NodeStatus::Offline.to_string(), "offline");
}

#[test]
fn region_names() {
    assert_eq!(NodeRegion::eu_west_1().to_string(), "eu-west-1");
    assert_eq!(NodeRegion::us_east_1().to_string(), "us-east-1");
    assert_eq!(NodeRegion::ap_southeast_1().to_string(), "ap-southeast-1");
    assert_eq!(NodeRegion::edge().to_string(), "edge");
}

#[test]
fn register_and_get() {
    let mut mgr = setup();
    let node = mgr.register(sample_node("n1", NodeRole::Regional, NodeRegion::eu_west_1(), 10)).unwrap();
    assert_eq!(node.heartbeat_count, 0);
    assert_eq!(node.last_heartbeat, node.registered_at);
    assert_eq!(mgr.node_count(), 1);
    assert_eq!(mgr.get("n1").unwrap().id, "n1");
    assert!(mgr.get("n2").is_none());
}

#[test]
fn duplicate_register_rejected() {
    let mut mgr = setup();
    mgr.register(sample_node("n1", NodeRole::Regional, NodeRegion::eu_west_1(), 10)).unwrap();
    assert!(mgr.register(sample_node("n1", NodeRole::Regional, NodeRegion::eu_west_1(), 10)).is_err());
    match mgr.register(sample_node("n1", NodeRole::Edge, NodeRegion::edge(), 1)) {
        Err(ClusterError::AlreadyExists(id)) => assert_eq!(id, "n1"),
        other => panic!("unexpected {:?}", other),
    }
    assert_eq!(mgr.node_count(), 1);
}

#[test]
fn heartbeat_counts_and_restores_offline_node() {
    let mut mgr = setup();
    let mut node = sample_node("n1", NodeRole::Regional, NodeRegion::eu_west_1(), 10);
    node.status = NodeStatus::Offline;
    mgr.register(node).unwrap();
    let restored = mgr.heartbeat("n1").unwrap();
    assert_eq!(restored.status, NodeStatus::Healthy);
    assert_eq!(restored.heartbeat_count, 1);
    assert!(restored.last_heartbeat >= restored.registered_at);
}

#[test]
fn heartbeat_restores_offline_node() {
    let mut mgr = setup();
    let mut node = sample_node("n1", NodeRole::Regional, NodeRegion::eu_west_1(), 10);
    node.status = NodeStatus::Offline;
    mgr.register(node).unwrap();
    let restored = mgr.heartbeat("n1").unwrap();
    assert_eq!(restored.status, NodeStatus::Healthy);
}

#[test]
fn heartbeat_keeps_degraded_node_degraded() {
    let mut mgr = setup();
    mgr.register(sample_node("n1", NodeRole::Regional, NodeRegion::eu_west_1(), 10)).unwrap();
    mgr.mark_degraded("n1").unwrap();
    assert_eq!(mgr.heartbeat("n1").unwrap().status, NodeStatus::Degraded);
}

#[test]
fn heartbeat_unknown_node_fails() {
    let mut mgr = setup();
    match mgr.heartbeat("ghost") {
        Err(ClusterError::NotFound(id)) => assert_eq!(id, "ghost"),
        other => panic!("unexpected {:?}", other),
    }
}

#[test]
fn deregister_removes_node() {
    let mut mgr = setup();
    mgr.register(sample_node("n1", NodeRole::Regional, NodeRegion::eu_west_1(), 10)).unwrap();
    mgr.deregister("n1").unwrap();
    assert_eq!(mgr.node_count(), 0);
    assert!(mgr.deregister("n1").is_err());
}

#[test]
fn deregister_clears_local_node() {
    let mut mgr = setup();
    mgr.register(sample_node("n1", NodeRole::Global, NodeRegion::eu_west_1(), 100)).unwrap();
    mgr.set_local("n1");
    mgr.deregister("n1").unwrap();
    mgr.register(sample_node("n1", NodeRole::Global, NodeRegion::eu_west_1(), 100)).unwrap();
    assert!(mgr.get_local().is_none());
}

#[test]
fn pick_node_returns_highest_priority() {
    let mut mgr = setup();
    mgr.register(sample_node("n1", NodeRole::Regional, NodeRegion::eu_west_1(), 10)).unwrap();
    mgr.register(sample_node("n2", NodeRole::Regional, NodeRegion::eu_west_1(), 30)).unwrap();
    mgr.register(sample_node("n3", NodeRole::Regional, NodeRegion::eu_west_1(), 20)).unwrap();
    let picked = mgr.pick_node().unwrap();
    assert_eq!(picked.id, "n2");
}

#[test]
fn pick_node_in_region() {
    let mut mgr = setup();
    mgr.register(sample_node("n1", NodeRole::Regional, NodeRegion::eu_west_1(), 10)).unwrap();
    mgr.register(sample_node("n2", NodeRole::Regional, NodeRegion::us_east_1(), 30)).unwrap();
    let picked = mgr.pick_node_in_region("eu-west-1").unwrap();
    assert_eq!(picked.id, "n1");
    assert!(mgr.pick_node_in_region("ap-southeast-1").is_err());
}

#[test]
fn pick_node_no_healthy_returns_error() {
    let mut mgr = setup();
    let mut node = sample_node("n1", NodeRole::Regional, NodeRegion::eu_west_1(), 10);
    node.status = NodeStatus::Unhealthy;
    mgr.register(node).unwrap();
    assert!(matches!(mgr.pick_node(), Err(ClusterError::NoHealthyNodes)));
}

#[test]
fn mark_unhealthy_excludes_from_pick() {
    let mut mgr = setup();
    mgr.register(sample_node("n1", NodeRole::Regional, NodeRegion::eu_west_1(), 10)).unwrap();
    mgr.register(sample_node("n2", NodeRole::Regional, NodeRegion::eu_west_1(), 20)).unwrap();
    mgr.mark_unhealthy("n2").unwrap();
    let picked = mgr.pick_node().unwrap();
    assert_eq!(picked.id, "n1");
}

#[test]
fn reap_stale_nodes_marks_offline() {
    let mut mgr = setup();
    let node = mgr.register(sample_node("n1", NodeRole::Edge, NodeRegion::edge(), 10)).unwrap();
    let later = node.last_heartbeat + (HEARTBEAT_TIMEOUT_SECONDS as i64) * 1_000_000_000 + 1;
    let reaped = mgr.reap_stale_nodes_at(later);
    assert_eq!(reaped.len(), 1);
    assert_eq!(reaped[0].status, NodeStatus::Offline);
    assert_eq!(mgr.get("n1").unwrap().status, NodeStatus::Offline);
    assert!(mgr.reap_stale_nodes_at(later).is_empty());
    let events = mgr.events().unwrap().replay_filtered(0, "cluster.node_offline");
    assert_eq!(events.len(), 1);
}

#[test]
fn reap_keeps_fresh_nodes() {
    let mut mgr = setup();
    mgr.register(sample_node("n1", NodeRole::Edge, NodeRegion::edge(), 10)).unwrap();
    assert!(mgr.reap_stale_nodes().is_empty());
    assert_eq!(mgr.get("n1").unwrap().status, NodeStatus::Healthy);
}

#[test]
fn list_by_role_and_region() {
    let mut mgr = setup();
    mgr.register(sample_node("n1", NodeRole::Regional, NodeRegion::eu_west_1(), 10)).unwrap();
    mgr.register(sample_node("n2", NodeRole::Edge, NodeRegion::eu_west_1(), 5)).unwrap();
    mgr.register(sample_node("n3", NodeRole::Regional, NodeRegion::us_east_1(), 10)).unwrap();
    assert_eq!(mgr.list_by_role(NodeRole::Regional).len(), 2);
    assert_eq!(mgr.list_by_role(NodeRole::Edge).len(), 1);
    assert_eq!(mgr.list_by_region("eu-west-1").len(), 2);
    assert_eq!(mgr.list_by_region("us-east-1").len(), 1);
    assert_eq!(mgr.list().len(), 3);
    assert_eq!(mgr.list_healthy().len(), 3);
}

#[test]
fn stats_aggregate_correctly() {
    let mut mgr = setup();
    mgr.register(sample_node("n1", NodeRole::Regional, NodeRegion::eu_west_1(), 10)).unwrap();
    mgr.register(sample_node("n2", NodeRole::Edge, NodeRegion::edge(), 5)).unwrap();
    mgr.mark_unhealthy("n2").unwrap();
    let stats = mgr.stats();
    assert_eq!(stats.total_nodes, 2);
    assert_eq!(stats.healthy_nodes, 1);
    assert_eq!(stats.unhealthy_nodes, 1);
    assert_eq!(stats.by_role.get("regional"), Some(&1));
    assert_eq!(stats.by_role.get("edge"), Some(&1));
    assert_eq!(stats.by_region.get("edge"), Some(&1));
    assert_eq!(mgr.healthy_count(), 1);
}

#[test]
fn local_node_tracking() {
    let mut mgr = setup();
    mgr.register(sample_node("n1", NodeRole::Global, NodeRegion::eu_west_1(), 100)).unwrap();
    mgr.set_local("n1");
    let local = mgr.get_local().unwrap();
    assert_eq!(local.id, "n1");
}

#[test]
fn manager_events_emitted() {
    let mut mgr = ClusterManager::new().with_event_bus(EventBus::new());
    mgr.register(sample_node("n1", NodeRole::Regional, NodeRegion::eu_west_1(), 10)).unwrap();
    mgr.heartbeat("n1").unwrap();
    mgr.mark_unhealthy("n1").unwrap();
    mgr.deregister("n1").unwrap();
    let events = mgr.events().unwrap().replay_filtered(0, "cluster.");
    let names: Vec<&str> = events.iter().map(|e| e.name.as_str()).collect();
    assert!(names.contains(&"cluster.node_registered"));
    assert!(names.contains(&"cluster.node_unhealthy"));
    assert!(names.contains(&"cluster.node_deregistered"));
    assert_eq!(names.len(), 3);
}
