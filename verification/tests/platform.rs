use nexora::platform::events::{subscriber_accepts, EventBus, EventPayload};
use nexora::platform::health::{HealthMonitor, HealthStatus};
use nexora::platform::modules::{is_valid_transition, Module, ModuleError, ModuleManager, ModuleState, ResourceBudget};
use nexora::platform::permissions::{
    pattern_matches, Decision, Grant, Permission, PermissionEngine, Principal, PrincipalKind, Role,
};

fn sample_engine() -> PermissionEngine {
    let mut engine = PermissionEngine::new();
    engine.register_role(Role {
        id: "admin".into(),
        description: "Full admin".into(),
        grants: vec![
            Grant { permission: Permission::Admin, resource: "*".into() },
            Grant { permission: Permission::Read, resource: "*".into() },
            Grant { permission: Permission::Write, resource: "*".into() },
            Grant { permission: Permission::Create, resource: "*".into() },
            Grant { permission: Permission::Delete, resource: "*".into() },
            Grant { permission: Permission::Execute, resource: "*".into() },
        ],
    });
    engine.register_role(Role {
        id: "dev".into(),
        description: "Developer".into(),
        grants: vec![
            Grant { permission: Permission::Read, resource: "project:*".into() },
            Grant { permission: Permission::Write, resource: "project:*".into() },
            Grant { permission: Permission::Execute, resource: "command:*".into() },
        ],
    });
    engine.register_role(Role {
        id: "viewer".into(),
        description: "Read-only".into(),
        grants: vec![Grant { permission: Permission::Read, resource: "project:*".into() }],
    });
    engine
}

fn user(id: &str, name: &str, roles: &[&str]) -> Principal {
    Principal {
        id: id.into(),
        name: name.into(),
        kind: PrincipalKind::User,
        roles: roles.iter().map(|r| r.to_string()).collect(),
    }
}

#[test]
fn admin_can_do_anything() {
    let mut engine = sample_engine();
    engine.register_principal(user("u1", "Alice", &["admin"]));
    assert!(engine.is_allowed("u1", Permission::Admin, "anything"));
    assert!(engine.is_allowed("u1", Permission::Delete, "module:auth"));
}

#[test]
fn dev_can_read_write_projects_but_not_admin() {
    let mut engine = sample_engine();
    engine.register_principal(user("u2", "Bob", &["dev"]));
    assert!(engine.is_allowed("u2", Permission::Read, "project:123"));
    assert!(engine.is_allowed("u2", Permission::Write, "project:123"));
    assert!(engine.is_allowed("u2", Permission::Execute, "command:deploy"));
    assert!(!engine.is_allowed("u2", Permission::Delete, "project:123"));
    assert!(!engine.is_allowed("u2", Permission::Admin, "project:123"));
    assert!(!engine.is_allowed("u2", Permission::Read, "billing:invoice"));
}

#[test]
fn viewer_can_only_read() {
    let mut engine = sample_engine();
    engine.register_principal(user("u3", "Carol", &["viewer"]));
    assert!(engine.is_allowed("u3", Permission::Read, "project:123"));
    assert!(!engine.is_allowed("u3", Permission::Write, "project:123"));
}

#[test]
fn unknown_principal_denied() {
    let engine = sample_engine();
    assert!(!engine.is_allowed("nobody", Permission::Read, "project:1"));
    assert_eq!(engine.check("nobody", Permission::Read, "project:1"), Decision::Deny);
}

#[test]
fn assign_and_revoke_role() {
    let mut engine = sample_engine();
    engine.register_principal(user("u4", "Dave", &[]));
    assert!(!engine.is_allowed("u4", Permission::Read, "project:1"));
    engine.assign_role("u4", "viewer").unwrap();
    assert!(engine.is_allowed("u4", Permission::Read, "project:1"));
    engine.revoke_role("u4", "viewer").unwrap();
    assert!(!engine.is_allowed("u4", Permission::Read, "project:1"));
    assert!(engine.assign_role("ghost", "viewer").is_err());
    assert_eq!(engine.principal_count(), 1);
    assert_eq!(engine.list_principals().len(), 1);
}

#[test]
fn pattern_matching() {
    assert!(pattern_matches("*", "anything"));
    assert!(pattern_matches("project:*", "project:123"));
    assert!(pattern_matches("project:*", "project:abc:def"));
    assert!(!pattern_matches("project:*", "module:auth"));
    assert!(pattern_matches("project:123", "project:123"));
    assert!(!pattern_matches("project:123", "project:456"));
}

#[test]
fn empty_monitor_is_healthy() {
    let m = HealthMonitor::new();
    assert_eq!(m.status(), HealthStatus::Healthy);
    assert!(m.is_healthy());
}

#[test]
fn degraded_propagates() {
    let mut m = HealthMonitor::new();
    m.report("a", HealthStatus::Healthy, None);
    m.report("b", HealthStatus::Degraded, Some("slow".into()));
    assert_eq!(m.status(), HealthStatus::Degraded);
}

#[test]
fn unhealthy_dominates() {
    let mut m = HealthMonitor::new();
    m.report("a", HealthStatus::Healthy, None);
    m.report("b", HealthStatus::Degraded, Some("slow".into()));
    m.report("c", HealthStatus::Unhealthy, Some("down".into()));
    assert_eq!(m.status(), HealthStatus::Unhealthy);
    assert!(!m.is_healthy());
}

#[test]
fn snapshot_works() {
    let mut m = HealthMonitor::new();
    m.report("a", HealthStatus::Healthy, None);
    m.report("b", HealthStatus::Degraded, None);
    let snap = m.snapshot();
    assert_eq!(snap.len(), 2);
    m.report("a", HealthStatus::Unhealthy, None);
    assert_eq!(m.snapshot().len(), 2);
    assert_eq!(m.status(), HealthStatus::Unhealthy);
}

fn sample_module(id: &str) -> Module {
    Module {
        id: id.to_string(),
        name: format!("{} module", id),
        version: "0.1.0".to_string(),
        state: ModuleState::Installed,
        owner: "test".to_string(),
        capabilities: vec!["test".to_string()],
        resource_budget: ResourceBudget::default(),
        installed_at: 0,
        last_transition: 0,
        transition_count: 0,
    }
}

#[test]
fn install_then_enable_then_pause_then_resume() {
    let mut mgr = ModuleManager::new();
    mgr.install(sample_module("auth")).unwrap();
    assert_eq!(mgr.module_count(), 1);
    mgr.enable("auth").unwrap();
    assert_eq!(mgr.get("auth").unwrap().state, ModuleState::Enabled);
    mgr.pause("auth").unwrap();
    assert_eq!(mgr.get("auth").unwrap().state, ModuleState::Paused);
    mgr.resume("auth").unwrap();
    assert_eq!(mgr.get("auth").unwrap().state, ModuleState::Enabled);
    assert!(mgr.get("auth").unwrap().transition_count >= 4);
}

#[test]
fn cannot_enable_unknown_module() {
    let mut mgr = ModuleManager::new();
    assert!(matches!(mgr.enable("nope"), Err(ModuleError::NotFound(_))));
}

#[test]
fn cannot_install_duplicate() {
    let mut mgr = ModuleManager::new();
    mgr.install(sample_module("auth")).unwrap();
    assert!(matches!(mgr.install(sample_module("auth")), Err(ModuleError::AlreadyExists(_))));
}

#[test]
fn invalid_transition_rejected() {
    let mut mgr = ModuleManager::new();
    mgr.install(sample_module("auth")).unwrap();
    assert!(matches!(mgr.pause("auth"), Err(ModuleError::InvalidTransition { .. })));
    assert!(!is_valid_transition(ModuleState::Installed, ModuleState::Paused));
    assert!(is_valid_transition(ModuleState::Paused, ModuleState::Installed));
}

#[test]
fn cannot_uninstall_enabled_module() {
    let mut mgr = ModuleManager::new();
    mgr.install(sample_module("auth")).unwrap();
    mgr.enable("auth").unwrap();
    assert!(matches!(mgr.uninstall("auth"), Err(ModuleError::WrongState { .. })));
    mgr.pause("auth").unwrap();
    mgr.uninstall("auth").unwrap();
    assert_eq!(mgr.get("auth").unwrap().state, ModuleState::Removed);
}

#[test]
fn list_in_state_works() {
    let mut mgr = ModuleManager::new();
    mgr.install(sample_module("auth")).unwrap();
    mgr.install(sample_module("billing")).unwrap();
    mgr.enable("auth").unwrap();
    assert_eq!(mgr.list_in_state(ModuleState::Enabled).len(), 1);
    assert_eq!(mgr.list_in_state(ModuleState::Installed).len(), 1);
    assert_eq!(mgr.list().len(), 2);
}

#[test]
fn module_events_published() {
    let mut mgr = ModuleManager::new().with_event_bus(EventBus::new());
    mgr.install(sample_module("auth")).unwrap();
    mgr.enable("auth").unwrap();
    let names: Vec<String> = mgr.events().unwrap().snapshot().into_iter().map(|e| e.name).collect();
    assert_eq!(names, vec!["module.installed".to_string(), "module.enabled".to_string()]);
}

#[test]
fn publish_assigns_monotonic_ids() {
    let mut bus = EventBus::new();
    let id1 = bus.publish("test.event", "a");
    let id2 = bus.publish("test.event", "b");
    let id3 = bus.publish("test.event", "c");
    assert!(id1 < id2);
    assert!(id2 < id3);
    assert_eq!(bus.log_len(), 3);
    assert_eq!(bus.published_count(), 3);
}

#[test]
fn replay_returns_events_from_offset() {
    let mut bus = EventBus::new();
    let _id1 = bus.publish("a.b", "1");
    let id2 = bus.publish("a.b", "2");
    let _id3 = bus.publish("c.d", "3");
    let replayed = bus.replay(id2);
    assert_eq!(replayed.len(), 2);
    assert_eq!(replayed[0].id, id2);
}

#[test]
fn replay_filtered_works() {
    let mut bus = EventBus::new();
    let _ = bus.publish("user.created", "u1");
    let _ = bus.publish("user.deleted", "u1");
    let _ = bus.publish("user.created", "u2");
    let created = bus.replay_filtered(0, "user.created");
    assert_eq!(created.len(), 2);
}

#[test]
fn subscriber_filter_by_prefix() {
    assert!(subscriber_accepts("user.", "user.created"));
    assert!(!subscriber_accepts("user.", "module.installed"));
    assert!(subscriber_accepts("", "anything"));
}

#[test]
fn events_are_immutable_in_log() {
    let mut bus = EventBus::new();
    let id = bus.publish("test", "hello");
    let snap1 = bus.snapshot();
    let snap2 = bus.snapshot();
    assert_eq!(snap1, snap2);
    assert_eq!(snap1[0].id, id);
    assert_eq!(snap1[0].payload, EventPayload::Text("hello".into()));
    assert_eq!(bus.get(id).unwrap().name, "test");
    assert!(bus.get(id + 1).is_none());
}
