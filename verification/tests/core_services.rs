use nexora::platform::config::{ConfigManager, ConfigValue};
use nexora::platform::kernel::{
    CoreHandler, ErrorCode, ErrorScope, ExecuteCommandArgs, ExecuteCommandRequest, NexoraCore,
    RegisterServiceRequest,
};
use nexora::platform::modules::{Module, ModuleError, ModuleState, ResourceBudget};
use nexora::platform::permissions::{Grant, Permission, Principal, PrincipalKind, Role};
use nexora::platform::plugins::{
    compute_integrity_hash, PluginError, PluginManager, PluginManifest, PluginResourceLimits, PluginState,
};
use nexora::platform::registry::{RegistryError, ServiceInstance, ServiceRegistry};
use nexora::platform::secrets::{SecretError, SecretManager};

fn sample_instance(name: &str, id: &str, priority: u32) -> ServiceInstance {
    ServiceInstance {
        name: name.to_string(),
        instance_id: id.to_string(),
        addr: "127.0.0.1:4433".to_string(),
        capabilities: vec!["nxp/1".to_string()],
        region: "eu-west-1".to_string(),
        last_heartbeat: 0,
        healthy: true,
        priority,
    }
}

#[test]
fn register_lookup_deregister() {
    let mut reg = ServiceRegistry::new();
    reg.register(sample_instance("auth", "auth-1", 10)).unwrap();
    reg.register(sample_instance("auth", "auth-2", 20)).unwrap();
    reg.register(sample_instance("billing", "bill-1", 10)).unwrap();

    assert_eq!(reg.lookup("auth").len(), 2);
    assert_eq!(reg.lookup("billing").len(), 1);
    assert_eq!(reg.lookup("nope").len(), 0);

    let picked = reg.pick_one("auth").unwrap();
    assert_eq!(picked.instance_id, "auth-2");

    reg.deregister("auth-2");
    assert_eq!(reg.lookup("auth").len(), 1);
}

#[test]
fn unhealthy_filtered() {
    let mut reg = ServiceRegistry::new();
    reg.register(sample_instance("auth", "auth-1", 10)).unwrap();
    reg.register(sample_instance("auth", "auth-2", 20)).unwrap();
    reg.mark_unhealthy("auth-2");
    let picked = reg.pick_one("auth").unwrap();
    assert_eq!(picked.instance_id, "auth-1");
}

#[test]
fn duplicate_instance_rejected() {
    let mut reg = ServiceRegistry::new();
    reg.register(sample_instance("auth", "auth-1", 10)).unwrap();
    assert!(matches!(reg.register(sample_instance("auth", "auth-1", 10)), Err(RegistryError::AlreadyExists(_))));
}

#[test]
fn pick_one_prefers_earliest_on_tie_and_reports_missing() {
    let mut reg = ServiceRegistry::new();
    reg.register(sample_instance("auth", "a", 5)).unwrap();
    reg.register(sample_instance("auth", "b", 5)).unwrap();
    assert_eq!(reg.pick_one("auth").unwrap().instance_id, "a");
    reg.mark_unhealthy("a");
    reg.mark_unhealthy("b");
    let err = reg.pick_one("auth").unwrap_err();
    assert_eq!(err.to_string(), "no instance found for service: auth");
    assert!(reg.heartbeat_at("a", 42));
    assert_eq!(reg.pick_one("auth").unwrap().last_heartbeat, 42);
    assert_eq!(reg.service_count(), 2);
    assert!(!reg.deregister("zzz"));
}

#[test]
fn put_get_works() {
    let mut mgr = SecretManager::new();
    let v1 = mgr.put("db.password", b"hunter2".to_vec());
    assert_eq!(v1, 1);
    let entry = mgr.get("db.password").unwrap();
    assert_eq!(entry.ciphertext, b"hunter2");
    assert!(entry.active);
    assert_eq!(mgr.version_count("db.password"), 1);
}

#[test]
fn put_creates_new_version_and_deactivates_old() {
    let mut mgr = SecretManager::new();
    mgr.put("k", b"v1".to_vec());
    let v2 = mgr.put("k", b"v2".to_vec());
    assert_eq!(v2, 2);
    let active = mgr.get("k").unwrap();
    assert_eq!(active.version, 2);
    assert_eq!(active.ciphertext, b"v2");
    let old = mgr.get_version("k", 1).unwrap();
    assert!(!old.active);
}

#[test]
fn rollback_works() {
    let mut mgr = SecretManager::new();
    mgr.put("k", b"v1".to_vec());
    mgr.put("k", b"v2".to_vec());
    mgr.put("k", b"v3".to_vec());
    assert_eq!(mgr.get("k").unwrap().ciphertext, b"v3");
    mgr.rollback("k", 1).unwrap();
    assert_eq!(mgr.get("k").unwrap().ciphertext, b"v1");
}

#[test]
fn delete_removes_all_versions() {
    let mut mgr = SecretManager::new();
    mgr.put("k", b"v1".to_vec());
    mgr.put("k", b"v2".to_vec());
    assert!(mgr.delete("k"));
    assert!(mgr.get("k").is_none());
    assert_eq!(mgr.secret_count(), 0);
}

#[test]
fn rollback_errors_and_listing() {
    let mut mgr = SecretManager::new();
    assert!(matches!(mgr.rollback("k", 1), Err(SecretError::NotFound(_))));
    mgr.put("k", b"v1".to_vec());
    mgr.put("j", b"x".to_vec());
    let err = mgr.rollback("k", 7).unwrap_err();
    assert_eq!(err.to_string(), "secret k version 7 not found");
    assert_eq!(mgr.list(), vec!["k".to_string(), "j".to_string()]);
    assert!(mgr.get_version("k", 0).is_none());
}

#[test]
fn set_get_works() {
    let mut cfg = ConfigManager::new();
    cfg.set("nxp.port", ConfigValue::Int(4433));
    cfg.set("nxp.host", ConfigValue::Str("0.0.0.0".into()));
    cfg.set("debug", ConfigValue::Bool(true));
    assert_eq!(cfg.get_int("nxp.port"), Some(4433));
    assert_eq!(cfg.get_str("nxp.host"), Some("0.0.0.0".to_string()));
    assert_eq!(cfg.get_bool("debug"), Some(true));
    assert_eq!(cfg.get_str("missing"), None);
}

#[test]
fn reload_replaces_all() {
    let mut cfg = ConfigManager::new();
    cfg.set("a", ConfigValue::Int(1));
    let new = vec![("b".to_string(), ConfigValue::Int(2))];
    cfg.reload(new);
    assert!(cfg.get("a").is_none());
    assert_eq!(cfg.get_int("b"), Some(2));
}

#[test]
fn get_or_returns_default() {
    let cfg = ConfigManager::new();
    assert_eq!(cfg.get_or("missing", ConfigValue::Str("default".into())), ConfigValue::Str("default".into()));
}

#[test]
fn config_nested_values_and_snapshot() {
    let mut cfg = ConfigManager::new();
    let nested = ConfigValue::Nested(vec![("x".to_string(), ConfigValue::Float(1.5f64.to_bits()))]);
    cfg.set("n", nested);
    cfg.set("s", ConfigValue::Str("t".into()));
    cfg.set("n", ConfigValue::Int(3));
    let snap = cfg.snapshot();
    assert_eq!(snap.len(), 2);
    assert_eq!(snap[0], ("n".to_string(), ConfigValue::Int(3)));
    assert_eq!(cfg.get_int("s"), None);
    cfg.reload(vec![("a".to_string(), ConfigValue::Int(1)), ("a".to_string(), ConfigValue::Int(2))]);
    assert_eq!(cfg.get_int("a"), Some(2));
}

fn sample_manifest(id: &str) -> PluginManifest {
    PluginManifest {
        id: id.to_string(),
        name: format!("{} plugin", id),
        version: "0.1.0".to_string(),
        owner: "test".to_string(),
        signer_public_key: "00".repeat(32),
        capabilities: vec!["nxp.command.execute".to_string()],
        resource_limits: PluginResourceLimits::default(),
        extends_module: "auth".to_string(),
        signature: "00".repeat(64),
    }
}

/// A stand-in canonical encoding of a manifest, signature left out.
fn canonical(m: &PluginManifest) -> Vec<u8> {
    rmp_serde::to_vec(&(
        &m.id,
        &m.name,
        &m.version,
        &m.owner,
        &m.signer_public_key,
        &m.capabilities,
        (
            m.resource_limits.max_cpu_percent,
            m.resource_limits.max_memory_mb,
            m.resource_limits.max_commands_per_sec,
            m.resource_limits.max_command_duration_ms,
        ),
        &m.extends_module,
        "",
    ))
    .unwrap()
}

fn register(mgr: &mut PluginManager, m: PluginManifest) -> Result<(), PluginError> {
    let bytes = canonical(&m);
    mgr.register(m, &bytes)
}

#[test]
fn register_verify_activate_stop_remove() {
    let mut mgr = PluginManager::new();
    register(&mut mgr, sample_manifest("p1")).unwrap();
    assert_eq!(mgr.get("p1").unwrap().state, PluginState::Pending);
    mgr.verify("p1").unwrap();
    assert_eq!(mgr.get("p1").unwrap().state, PluginState::Verified);
    mgr.activate("p1").unwrap();
    assert_eq!(mgr.get("p1").unwrap().state, PluginState::Active);
    mgr.record_command("p1").unwrap();
    assert_eq!(mgr.get("p1").unwrap().commands_executed, 1);
    mgr.stop("p1").unwrap();
    assert_eq!(mgr.get("p1").unwrap().state, PluginState::Stopped);
    mgr.remove("p1").unwrap();
    assert_eq!(mgr.get("p1").unwrap().state, PluginState::Removed);
}

#[test]
fn cannot_activate_unverified() {
    let mut mgr = PluginManager::new();
    register(&mut mgr, sample_manifest("p1")).unwrap();
    assert!(matches!(mgr.activate("p1"), Err(PluginError::WrongState { .. })));
}

#[test]
fn cannot_record_command_on_stopped() {
    let mut mgr = PluginManager::new();
    register(&mut mgr, sample_manifest("p1")).unwrap();
    mgr.verify("p1").unwrap();
    mgr.activate("p1").unwrap();
    mgr.stop("p1").unwrap();
    assert!(matches!(mgr.record_command("p1"), Err(PluginError::WrongState { .. })));
}

#[test]
fn integrity_hash_is_stable() {
    let m = sample_manifest("p1");
    let h1 = compute_integrity_hash(&canonical(&m));
    let h2 = compute_integrity_hash(&canonical(&m));
    assert_eq!(h1, h2);
    assert_eq!(h1.len(), 64);
}

#[test]
fn integrity_hash_changes_on_content_change() {
    let m1 = sample_manifest("p1");
    let mut m2 = sample_manifest("p1");
    m2.name = "different".to_string();
    assert_ne!(compute_integrity_hash(&canonical(&m1)), compute_integrity_hash(&canonical(&m2)));
}

#[test]
fn plugin_events_and_errors() {
    let mut mgr = PluginManager::new().with_event_bus(nexora::platform::events::EventBus::new());
    register(&mut mgr, sample_manifest("p1")).unwrap();
    mgr.verify("p1").unwrap();
    let err = register(&mut mgr, sample_manifest("p1")).unwrap_err();
    assert_eq!(err.to_string(), "plugin already registered: p1");
    let err = mgr.stop("p1").unwrap_err();
    assert_eq!(err.to_string(), "plugin p1 in state verified, expected active");
    assert_eq!(mgr.events().unwrap().published_count(), 2);
    assert_eq!(mgr.get("p1").unwrap().integrity_hash, compute_integrity_hash(&canonical(&sample_manifest("p1"))));
}

fn sample_handler() -> CoreHandler {
    let mut core = NexoraCore::new();
    core.permissions.register_role(Role {
        id: "admin".into(),
        description: "admin".into(),
        grants: vec![Grant { permission: Permission::Execute, resource: "command:*".into() }],
    });
    core.permissions.register_principal(Principal {
        id: "u1".into(),
        name: "Alice".into(),
        kind: PrincipalKind::User,
        roles: vec!["admin".to_string()],
    });
    CoreHandler::new(core)
}

fn command(principal: &str, command: &str, args: ExecuteCommandArgs) -> ExecuteCommandRequest {
    ExecuteCommandRequest {
        principal_id: principal.into(),
        command: command.into(),
        resource: format!("command:{}", command),
        permission: Permission::Execute,
        args,
    }
}

fn args_with(fields: &[(&str, &str)]) -> ExecuteCommandArgs {
    let mut args = ExecuteCommandArgs::empty();
    for (k, v) in fields {
        args.fields.insert(k.to_string(), v.to_string());
    }
    args
}

#[test]
fn ping_returns_pong() {
    let h = sample_handler();
    assert!(h.ping().pong);
}

#[test]
fn register_and_discover_service() {
    let mut h = sample_handler();
    let req = RegisterServiceRequest {
        name: "auth".into(),
        instance_id: "auth-1".into(),
        addr: "127.0.0.1:4433".into(),
        capabilities: Some(vec!["nxp/1".into()]),
        region: Some("eu".into()),
        priority: Some(10),
    };
    h.register_service(req).unwrap();
    let resp = h.discover_service("auth");
    assert_eq!(resp.instances.len(), 1);
    assert_eq!(resp.instances[0].instance_id, "auth-1");
}

#[test]
fn publish_and_replay_event() {
    let mut h = sample_handler();
    let resp = h.publish_event("test.event".into(), "hello".into());
    assert!(resp.event_id > 0);
    let replay = h.replay_events(0, "");
    assert_eq!(replay.events.len(), 1);
    assert_eq!(replay.events[0].name, "test.event");
}

#[test]
fn execute_command_module_install() {
    let mut h = sample_handler();
    let args = args_with(&[("id", "auth"), ("name", "Auth Module"), ("owner", "core")]);
    let resp = h.execute_command(command("u1", "module.install", args), canonical).unwrap();
    assert!(resp.ok);
    assert_eq!(h.nexora_core().modules().module_count(), 1);
}

#[test]
fn execute_command_denied_without_permission() {
    let mut core = NexoraCore::new();
    core.permissions.register_principal(Principal {
        id: "u_unpriv".into(),
        name: "Unprivileged".into(),
        kind: PrincipalKind::User,
        roles: Vec::new(),
    });
    let mut h = CoreHandler::new(core);
    let err = h.execute_command(command("u_unpriv", "module.list", ExecuteCommandArgs::empty()), canonical).unwrap_err();
    assert_eq!(err.scope, ErrorScope::Authz);
    assert_eq!(err.message, "principal u_unpriv denied execute on command:module.list");
}

#[test]
fn execute_command_lifecycle_and_errors() {
    let mut h = sample_handler();
    let err = h.execute_command(command("u1", "module.frobnicate", ExecuteCommandArgs::empty()), canonical).unwrap_err();
    assert_eq!(err.code, ErrorCode::UnknownOpcode);
    assert_eq!(err.message, "unknown command: module.frobnicate");

    let err = h.execute_command(command("u1", "module.enable", ExecuteCommandArgs::empty()), canonical).unwrap_err();
    assert_eq!(err.code, ErrorCode::DecodeFailed);
    assert_eq!(err.message, "missing id");

    h.execute_command(command("u1", "module.install", args_with(&[("id", "m")])), canonical).unwrap();
    let resp = h.execute_command(command("u1", "module.enable", args_with(&[("id", "m")])), canonical).unwrap();
    assert_eq!(resp.message, "module m transition complete");
    assert_eq!(h.nexora_core().modules().get("m").unwrap().state, ModuleState::Enabled);
    let err = h.execute_command(command("u1", "module.uninstall", args_with(&[("id", "m")])), canonical).unwrap_err();
    assert_eq!(err.message, "module m is in state enabled, expected installed");
    let resp = h.execute_command(command("u1", "module.list", ExecuteCommandArgs::empty()), canonical).unwrap();
    assert_eq!(resp.message, "1 modules");
    assert_eq!(resp.data.unwrap().len(), 1);

    h.execute_command(command("u1", "plugin.register", args_with(&[("id", "p")])), canonical).unwrap();
    let plugin = h.nexora_core().plugins().get("p").unwrap();
    assert_eq!(plugin.manifest.version, "0.1.0");
    assert_eq!(plugin.manifest.signature, "00".repeat(64));
    let err = h.execute_command(command("u1", "plugin.activate", args_with(&[("id", "p")])), canonical).unwrap_err();
    assert_eq!(err.message, "plugin p in state pending, expected verified");

    let resp = h
        .execute_command(command("u1", "principal.register", args_with(&[("id", "svc"), ("kind", "service")])), canonical)
        .unwrap();
    assert_eq!(resp.message, "principal svc registered");
    let resp = h.execute_command(command("u1", "principal.list", ExecuteCommandArgs::empty()), canonical).unwrap();
    assert_eq!(resp.message, "2 principals");
}

#[test]
fn core_starts_empty_and_healthy() {
    let core = NexoraCore::new();
    assert!(core.is_healthy());
    assert_eq!(core.modules().module_count(), 0);
    assert_eq!(core.events_inner().published_count(), 0);
    assert_eq!(core.permissions_inner().principal_count(), 0);
}

#[test]
fn lifecycle_events_land_on_core_bus() {
    let mut h = sample_handler();
    h.execute_command(command("u1", "module.install", args_with(&[("id", "m")])), canonical).unwrap();
    h.execute_command(command("u1", "module.enable", args_with(&[("id", "m")])), canonical).unwrap();
    h.execute_command(command("u1", "module.pause", args_with(&[("id", "m")])), canonical).unwrap();
    h.execute_command(command("u1", "plugin.register", args_with(&[("id", "p")])), canonical).unwrap();
    assert!(h.execute_command(command("u1", "plugin.activate", args_with(&[("id", "p")])), canonical).is_err());
    let names: Vec<String> = h.replay_events(0, "").events.iter().map(|e| e.name.clone()).collect();
    assert_eq!(names, vec!["module.installed", "module.enabled", "module.paused", "plugin.registered"]);
    assert!(h.nexora_core().modules().events().is_none());
    assert!(h.nexora_core().plugins().events().is_none());
}

#[test]
fn core_lifecycle_changes_publish_on_core_events() {
    let mut core = NexoraCore::new();
    let module = Module {
        id: "auth".to_string(),
        name: "Auth Module".to_string(),
        version: "0.1.0".to_string(),
        state: ModuleState::Installed,
        owner: "core".to_string(),
        capabilities: vec!["auth".to_string()],
        resource_budget: ResourceBudget::default(),
        installed_at: 0,
        last_transition: 0,
        transition_count: 0,
    };
    core.install_module(module).unwrap();
    assert_eq!(core.events_inner().published_count(), 1);
    assert_eq!(core.modules().module_count(), 1);
    core.enable_module("auth").unwrap();
    core.pause_module("auth").unwrap();
    core.resume_module("auth").unwrap();
    assert!(matches!(core.uninstall_module("auth"), Err(ModuleError::WrongState { .. })));
    core.pause_module("auth").unwrap();
    core.uninstall_module("auth").unwrap();
    assert_eq!(core.modules().get("auth").unwrap().state, ModuleState::Removed);
    assert!(matches!(core.enable_module("ghost"), Err(ModuleError::NotFound(_))));

    let manifest = sample_manifest("p");
    let bytes = canonical(&manifest);
    core.register_plugin(manifest, &bytes).unwrap();
    assert!(matches!(core.activate_plugin("p"), Err(PluginError::WrongState { .. })));
    core.verify_plugin("p").unwrap();
    core.activate_plugin("p").unwrap();
    core.record_plugin_command("p").unwrap();
    assert_eq!(core.plugins().get("p").unwrap().commands_executed, 1);
    core.stop_plugin("p").unwrap();
    core.remove_plugin("p").unwrap();
    assert_eq!(core.plugins().get("p").unwrap().state, PluginState::Removed);

    let names: Vec<String> = core.events_inner().replay(0).iter().map(|e| e.name.clone()).collect();
    assert_eq!(
        names,
        vec![
            "module.installed",
            "module.enabled",
            "module.paused",
            "module.enabled",
            "module.paused",
            "module.uninstalled",
            "plugin.registered",
            "plugin.verified",
            "plugin.activated",
            "plugin.stopped",
            "plugin.removed",
        ]
    );
    assert!(core.modules().events().is_none());
    assert!(core.plugins().events().is_none());
}
