//! The platform core, which owns every subsystem, and its command handler.
//!
//! The handler works on requests and responses as values; framing and
//! decoding them is the transport's business. A command runs only when
//! the requesting principal holds the requested permission on the
//! requested resource.

use vstd::prelude::*;
use crate::platform::config::ConfigManager;
use crate::platform::events::{
    Event, EventBus, EventPayload, EventView, PayloadView, emitted, event_views, has_prefix,
};
use crate::platform::health::{HealthMonitor, HealthStatus, overall_status};
use crate::platform::modules::{
    Module, ModuleError, ModuleManager, ModuleState, ModuleView, ResourceBudget, changed_state, valid_transition,
};
use crate::platform::permissions::{Permission, PermissionEngine, Principal, PrincipalKind, PrincipalView, permission_name};
use crate::platform::plugins::{
    PluginError, PluginManager, PluginManifest, PluginResourceLimits, PluginState, PluginView, integrity_of,
    ManifestView,
};
use crate::platform::registry::{InstanceView, RegistryError, ServiceInstance, ServiceRegistry};
use crate::platform::secrets::SecretManager;
use crate::string_map::{lookup, StringMap};
use crate::sys::now_unix_nanos;
use crate::table::models;
use crate::text::{copy_strings, decimal, decimal_text, push_str, str_eq};

verus! {

/// The module and plugin managers of a core. Only the core's methods change
/// them, and each change borrows the core's bus, so that every lifecycle
/// change is published on the core's `events`.
#[derive(Debug)]
pub struct Lifecycle {
    modules: ModuleManager,
    plugins: PluginManager,
}

impl Lifecycle {
    /// The module manager.
    pub closed spec fn module_manager(&self) -> ModuleManager {
        self.modules
    }

    /// The plugin manager.
    pub closed spec fn plugin_manager(&self) -> PluginManager {
        self.plugins
    }
}

/// The core: every subsystem of the platform.
///
/// There is one event bus, `events`: the module and plugin managers hold
/// none of their own between calls, and every lifecycle change made through
/// the core is published on it.
#[derive(Debug)]
pub struct NexoraCore {
    /// The module and plugin managers.
    pub lifecycle: Lifecycle,
    /// Service registry.
    pub registry: ServiceRegistry,
    /// Event bus.
    pub events: EventBus,
    /// Permission engine.
    pub permissions: PermissionEngine,
    /// Configuration manager.
    pub config: ConfigManager,
    /// Secret manager.
    pub secrets: SecretManager,
    /// Health monitor.
    pub health: HealthMonitor,
}

impl NexoraCore {
    /// Well-formedness of every subsystem.
    pub open spec fn wf(&self) -> bool {
        &&& self.module_manager().wf()
        &&& self.registry.wf()
        &&& self.events.wf()
        &&& self.permissions.wf()
        &&& self.plugin_manager().wf()
        &&& self.config.wf()
        &&& self.secrets.wf()
        &&& self.health.wf()
        &&& self.module_manager().event_bus() is None
        &&& self.plugin_manager().event_bus() is None
    }

    /// The module manager.
    pub open spec fn module_manager(&self) -> ModuleManager {
        self.lifecycle.module_manager()
    }

    /// The plugin manager.
    pub open spec fn plugin_manager(&self) -> PluginManager {
        self.lifecycle.plugin_manager()
    }

    /// A core with every subsystem empty. There is one event bus, `events`:
    /// the module and plugin managers hold none of their own between calls,
    /// and every lifecycle change made through the core is published on
    /// `events`.
    pub fn new() -> (c: NexoraCore)
        ensures
            c.wf(),
            c.module_manager().modules().len() == 0,
            c.module_manager().event_bus() is None,
            c.plugin_manager().plugins().len() == 0,
            c.plugin_manager().event_bus() is None,
            c.registry.instances().len() == 0,
            c.events.events().len() == 0,
            c.permissions.principals().len() == 0,
            c.permissions.roles().len() == 0,
            c.secrets.secrets().len() == 0,
            c.health.reports().len() == 0,
    {
        let c = NexoraCore {
            lifecycle: Lifecycle { modules: ModuleManager::new(), plugins: PluginManager::new() },
            registry: ServiceRegistry::new(),
            events: EventBus::new(),
            permissions: PermissionEngine::new(),
            config: ConfigManager::new(),
            secrets: SecretManager::new(),
            health: HealthMonitor::new(),
        };
        c
    }

    /// The module manager, to read.
    pub fn modules(&self) -> (m: &ModuleManager)
        ensures
            *m == self.module_manager(),
    {
        &self.lifecycle.modules
    }

    /// The plugin manager, to read.
    pub fn plugins(&self) -> (p: &PluginManager)
        ensures
            *p == self.plugin_manager(),
    {
        &self.lifecycle.plugins
    }

    fn lend_to_modules(&mut self)
        requires
            old(self).wf(),
        ensures
            final(self).module_manager().wf(),
            final(self).module_manager().event_bus() == Some(old(self).events),
            final(self).module_manager().modules() == old(self).module_manager().modules(),
            final(self).plugin_manager() == old(self).plugin_manager(),
            services_unchanged(*old(self), *final(self)),
    {
        let mut bus = EventBus::new();
        std::mem::swap(&mut bus, &mut self.events);
        let _none = self.lifecycle.modules.replace_event_bus(Some(bus));
    }

    fn reclaim_from_modules(&mut self)
        requires
            old(self).module_manager().wf(),
            old(self).module_manager().event_bus() is Some,
        ensures
            final(self).module_manager().wf(),
            final(self).module_manager().event_bus() is None,
            final(self).events == old(self).module_manager().event_bus()->0,
            final(self).module_manager().modules() == old(self).module_manager().modules(),
            final(self).plugin_manager() == old(self).plugin_manager(),
            services_unchanged(*old(self), *final(self)),
    {
        match self.lifecycle.modules.replace_event_bus(None) {
            Some(b) => {
                self.events = b;
            },
            None => {},
        }
    }

    fn lend_to_plugins(&mut self)
        requires
            old(self).wf(),
        ensures
            final(self).plugin_manager().wf(),
            final(self).plugin_manager().event_bus() == Some(old(self).events),
            final(self).plugin_manager().plugins() == old(self).plugin_manager().plugins(),
            final(self).module_manager() == old(self).module_manager(),
            services_unchanged(*old(self), *final(self)),
    {
        let mut bus = EventBus::new();
        std::mem::swap(&mut bus, &mut self.events);
        let _none = self.lifecycle.plugins.replace_event_bus(Some(bus));
    }

    fn reclaim_from_plugins(&mut self)
        requires
            old(self).plugin_manager().wf(),
            old(self).plugin_manager().event_bus() is Some,
        ensures
            final(self).plugin_manager().wf(),
            final(self).plugin_manager().event_bus() is None,
            final(self).events == old(self).plugin_manager().event_bus()->0,
            final(self).plugin_manager().plugins() == old(self).plugin_manager().plugins(),
            final(self).module_manager() == old(self).module_manager(),
            services_unchanged(*old(self), *final(self)),
    {
        match self.lifecycle.plugins.replace_event_bus(None) {
            Some(b) => {
                self.events = b;
            },
            None => {},
        }
    }

    /// Install a module; `module.installed` is published on `events` when
    /// it succeeds.
    pub fn install_module(&mut self, module: Module) -> (r: Result<(), ModuleError>)
        requires
            old(self).wf(),
        ensures
            final(self).wf(),
            install_outcome(old(self).module_manager().modules(), final(self).module_manager().modules(), module@, r),
            lifecycle_recorded(*old(self), *final(self), r is Ok, "module.installed"@, module.id@),
            final(self).plugin_manager() == old(self).plugin_manager(),
            services_unchanged(*old(self), *final(self)),
    {
        self.lend_to_modules();
        let r = self.lifecycle.modules.install(module);
        self.reclaim_from_modules();
        r
    }

    /// Enable an installed or paused module; `module.enabled` is published
    /// on `events` when it succeeds.
    pub fn enable_module(&mut self, id: &str) -> (r: Result<(), ModuleError>)
        requires
            old(self).wf(),
            old(self).module_manager().modules().contains_key(id@)
                ==> old(self).module_manager().modules()[id@].transition_count < u64::MAX,
        ensures
            final(self).wf(),
            module_transition_outcome(
                old(self).module_manager().modules(),
                final(self).module_manager().modules(),
                id@,
                ModuleState::Enabled,
                r,
            ),
            lifecycle_recorded(*old(self), *final(self), r is Ok, "module.enabled"@, id@),
            final(self).plugin_manager() == old(self).plugin_manager(),
            services_unchanged(*old(self), *final(self)),
    {
        self.lend_to_modules();
        let r = self.lifecycle.modules.enable(id);
        self.reclaim_from_modules();
        r
    }

    /// Pause an enabled module; `module.paused` is published on `events`
    /// when it succeeds.
    pub fn pause_module(&mut self, id: &str) -> (r: Result<(), ModuleError>)
        requires
            old(self).wf(),
            old(self).module_manager().modules().contains_key(id@)
                ==> old(self).module_manager().modules()[id@].transition_count < u64::MAX,
        ensures
            final(self).wf(),
            module_transition_outcome(
                old(self).module_manager().modules(),
                final(self).module_manager().modules(),
                id@,
                ModuleState::Paused,
                r,
            ),
            lifecycle_recorded(*old(self), *final(self), r is Ok, "module.paused"@, id@),
            final(self).plugin_manager() == old(self).plugin_manager(),
            services_unchanged(*old(self), *final(self)),
    {
        self.lend_to_modules();
        let r = self.lifecycle.modules.pause(id);
        self.reclaim_from_modules();
        r
    }

    /// Resume a paused module; `module.enabled` is published on `events`
    /// when it succeeds.
    pub fn resume_module(&mut self, id: &str) -> (r: Result<(), ModuleError>)
        requires
            old(self).wf(),
            old(self).module_manager().modules().contains_key(id@)
                ==> old(self).module_manager().modules()[id@].transition_count < u64::MAX,
        ensures
            final(self).wf(),
            module_transition_outcome(
                old(self).module_manager().modules(),
                final(self).module_manager().modules(),
                id@,
                ModuleState::Enabled,
                r,
            ),
            lifecycle_recorded(*old(self), *final(self), r is Ok, "module.enabled"@, id@),
            final(self).plugin_manager() == old(self).plugin_manager(),
            services_unchanged(*old(self), *final(self)),
    {
        self.lend_to_modules();
        let r = self.lifecycle.modules.resume(id);
        self.reclaim_from_modules();
        r
    }

    /// Mark a module that is not enabled as removed; `module.uninstalled` is
    /// published on `events` when it succeeds.
    pub fn uninstall_module(&mut self, id: &str) -> (r: Result<(), ModuleError>)
        requires
            old(self).wf(),
            old(self).module_manager().modules().contains_key(id@)
                ==> old(self).module_manager().modules()[id@].transition_count < u64::MAX,
        ensures
            final(self).wf(),
            uninstall_outcome(old(self).module_manager().modules(), final(self).module_manager().modules(), id@, r),
            lifecycle_recorded(*old(self), *final(self), r is Ok, "module.uninstalled"@, id@),
            final(self).plugin_manager() == old(self).plugin_manager(),
            services_unchanged(*old(self), *final(self)),
    {
        self.lend_to_modules();
        let r = self.lifecycle.modules.uninstall(id);
        self.reclaim_from_modules();
        r
    }

    /// Register a plugin in `Pending`; `plugin.registered` is published on
    /// `events` when it succeeds.
    pub fn register_plugin(&mut self, manifest: PluginManifest, canonical: &[u8]) -> (r: Result<(), PluginError>)
        requires
            old(self).wf(),
        ensures
            final(self).wf(),
            plugin_register_outcome(
                old(self).plugin_manager().plugins(),
                final(self).plugin_manager().plugins(),
                manifest@,
                canonical@,
                r,
            ),
            lifecycle_recorded(*old(self), *final(self), r is Ok, "plugin.registered"@, manifest.id@),
            final(self).module_manager() == old(self).module_manager(),
            services_unchanged(*old(self), *final(self)),
    {
        self.lend_to_plugins();
        let r = self.lifecycle.plugins.register(manifest, canonical);
        self.reclaim_from_plugins();
        r
    }

    /// Verify a pending plugin; `plugin.verified` is published on `events`
    /// when it succeeds.
    pub fn verify_plugin(&mut self, id: &str) -> (r: Result<(), PluginError>)
        requires
            old(self).wf(),
        ensures
            final(self).wf(),
            plugin_transition_outcome(
                old(self).plugin_manager().plugins(),
                final(self).plugin_manager().plugins(),
                id@,
                PluginState::Pending,
                PluginState::Verified,
                r,
            ),
            lifecycle_recorded(*old(self), *final(self), r is Ok, "plugin.verified"@, id@),
            final(self).module_manager() == old(self).module_manager(),
            services_unchanged(*old(self), *final(self)),
    {
        self.lend_to_plugins();
        let r = self.lifecycle.plugins.verify(id);
        self.reclaim_from_plugins();
        r
    }

    /// Activate a verified plugin; `plugin.activated` is published on
    /// `events` when it succeeds.
    pub fn activate_plugin(&mut self, id: &str) -> (r: Result<(), PluginError>)
        requires
            old(self).wf(),
        ensures
            final(self).wf(),
            plugin_transition_outcome(
                old(self).plugin_manager().plugins(),
                final(self).plugin_manager().plugins(),
                id@,
                PluginState::Verified,
                PluginState::Active,
                r,
            ),
            lifecycle_recorded(*old(self), *final(self), r is Ok, "plugin.activated"@, id@),
            final(self).module_manager() == old(self).module_manager(),
            services_unchanged(*old(self), *final(self)),
    {
        self.lend_to_plugins();
        let r = self.lifecycle.plugins.activate(id);
        self.reclaim_from_plugins();
        r
    }

    /// Stop an active plugin; `plugin.stopped` is published on `events` when
    /// it succeeds.
    pub fn stop_plugin(&mut self, id: &str) -> (r: Result<(), PluginError>)
        requires
            old(self).wf(),
        ensures
            final(self).wf(),
            plugin_transition_outcome(
                old(self).plugin_manager().plugins(),
                final(self).plugin_manager().plugins(),
                id@,
                PluginState::Active,
                PluginState::Stopped,
                r,
            ),
            lifecycle_recorded(*old(self), *final(self), r is Ok, "plugin.stopped"@, id@),
            final(self).module_manager() == old(self).module_manager(),
            services_unchanged(*old(self), *final(self)),
    {
        self.lend_to_plugins();
        let r = self.lifecycle.plugins.stop(id);
        self.reclaim_from_plugins();
        r
    }

    /// Mark a plugin removed, whatever its state; `plugin.removed` is
    /// published on `events` when it succeeds.
    pub fn remove_plugin(&mut self, id: &str) -> (r: Result<(), PluginError>)
        requires
            old(self).wf(),
        ensures
            final(self).wf(),
            plugin_remove_outcome(old(self).plugin_manager().plugins(), final(self).plugin_manager().plugins(), id@, r),
            lifecycle_recorded(*old(self), *final(self), r is Ok, "plugin.removed"@, id@),
            final(self).module_manager() == old(self).module_manager(),
            services_unchanged(*old(self), *final(self)),
    {
        self.lend_to_plugins();
        let r = self.lifecycle.plugins.remove(id);
        self.reclaim_from_plugins();
        r
    }

    /// Count a command executed by an active plugin; this publishes nothing.
    pub fn record_plugin_command(&mut self, id: &str) -> (r: Result<(), PluginError>)
        requires
            old(self).wf(),
        ensures
            final(self).wf(),
            plugin_record_outcome(old(self).plugin_manager().plugins(), final(self).plugin_manager().plugins(), id@, r),
            final(self).events == old(self).events,
            final(self).module_manager() == old(self).module_manager(),
            services_unchanged(*old(self), *final(self)),
    {
        self.lifecycle.plugins.record_command(id)
    }

    /// The permission engine.
    pub fn permissions_inner(&self) -> (p: &PermissionEngine)
        ensures
            *p == self.permissions,
    {
        &self.permissions
    }

    /// The event bus.
    pub fn events_inner(&self) -> (e: &EventBus)
        ensures
            *e == self.events,
    {
        &self.events
    }

    /// Whether every subsystem reports healthy.
    pub fn is_healthy(&self) -> (b: bool)
        ensures
            b == (overall_status(self.health.reports()) == HealthStatus::Healthy),
    {
        self.health.status() == HealthStatus::Healthy
    }
}

/// Where an error belongs.
#[derive(Clone, Copy, Debug, PartialEq, Eq, Structural)]
pub enum ErrorScope {
    /// The request could not be processed.
    Protocol,
    /// The principal may not do this.
    Authz,
}

/// What went wrong.
#[derive(Clone, Copy, Debug, PartialEq, Eq, Structural)]
pub enum ErrorCode {
    /// The command is not known.
    UnknownOpcode,
    /// The request is malformed or the operation failed.
    DecodeFailed,
    /// The principal lacks the permission.
    Forbidden,
}

/// An error answered to a request.
#[derive(Debug)]
pub struct HandlerError {
    /// Scope.
    pub scope: ErrorScope,
    /// Code.
    pub code: ErrorCode,
    /// Message.
    pub message: String,
}

/// Answer to a ping.
#[derive(Debug, Clone, Copy)]
pub struct PingResponse {
    /// Always `true`.
    pub pong: bool,
}

/// Request to register a service instance.
#[derive(Debug)]
pub struct RegisterServiceRequest {
    /// Service name.
    pub name: String,
    /// Instance id.
    pub instance_id: String,
    /// Endpoint address.
    pub addr: String,
    /// Capabilities, if given.
    pub capabilities: Option<Vec<String>>,
    /// Region, if given.
    pub region: Option<String>,
    /// Priority, if given.
    pub priority: Option<u32>,
}

/// Answer to a registration.
#[derive(Debug, Clone, Copy)]
pub struct RegisterServiceResponse {
    /// Always `true`.
    pub ok: bool,
}

/// Answer to a discovery.
#[derive(Debug)]
pub struct DiscoverServiceResponse {
    /// The registered instances of the name.
    pub instances: Vec<ServiceInstance>,
}

/// Answer to a subscription.
#[derive(Debug, Clone, Copy)]
pub struct SubscribeEventResponse {
    /// Always `true`.
    pub ok: bool,
}

/// Answer to a publication.
#[derive(Debug, Clone, Copy)]
pub struct PublishEventResponse {
    /// Id of the published event.
    pub event_id: u64,
}

/// Answer to a replay.
#[derive(Debug)]
pub struct ReplayEventsResponse {
    /// The replayed events.
    pub events: Vec<Event>,
}

/// Arguments of a command: text fields and text lists by name.
#[derive(Debug)]
pub struct ExecuteCommandArgs {
    /// Text fields.
    pub fields: StringMap,
    /// Text lists (the first entry of a name counts).
    pub lists: Vec<(String, Vec<String>)>,
}

/// The list stored under `key`: that of the first entry with this name.
pub open spec fn list_lookup(lists: Seq<(String, Vec<String>)>, key: Seq<char>) -> Option<Seq<String>>
    decreases lists.len(),
{
    if lists.len() == 0 {
        None
    } else if lists[0].0@ == key {
        Some(lists[0].1@)
    } else {
        list_lookup(lists.drop_first(), key)
    }
}

impl ExecuteCommandArgs {
    /// No arguments.
    pub fn empty() -> (a: ExecuteCommandArgs)
        ensures
            a.fields.wf(),
            a.fields@ == Seq::<(Seq<char>, Seq<char>)>::empty(),
            a.lists@ == Seq::<(String, Vec<String>)>::empty(),
    {
        ExecuteCommandArgs { fields: StringMap::new(), lists: Vec::new() }
    }

    /// The text field `key`.
    pub fn get_string(&self, key: &str) -> (r: Option<String>)
        ensures
            match r {
                Some(s) => lookup(self.fields@, key@) == Some(s@),
                None => lookup(self.fields@, key@) is None,
            },
    {
        match self.fields.get(key) {
            Some(v) => Some(v.clone()),
            None => None,
        }
    }

    /// The text list `key`.
    pub fn get_string_list(&self, key: &str) -> (r: Option<Vec<String>>)
        ensures
            match r {
                Some(l) => list_lookup(self.lists@, key@) == Some(l@),
                None => list_lookup(self.lists@, key@) is None,
            },
    {
        let mut i: usize = 0;
        assert(self.lists@.skip(0) =~= self.lists@);
        while i < self.lists.len()
            invariant
                i <= self.lists@.len(),
                list_lookup(self.lists@, key@) == list_lookup(self.lists@.skip(i as int), key@),
            decreases self.lists@.len() - i,
        {
            let ghost rest = self.lists@.skip(i as int);
            assert(rest[0] == self.lists@[i as int]);
            assert(rest.drop_first() =~= self.lists@.skip(i + 1));
            if str_eq(self.lists[i].0.as_str(), key) {
                return Some(copy_strings(&self.lists[i].1));
            }
            i = i + 1;
        }
        assert(self.lists@.skip(i as int).len() == 0);
        None
    }
}

/// A command's answer.
#[derive(Debug)]
pub struct ExecuteCommandResponse {
    /// Whether it succeeded.
    pub ok: bool,
    /// Human-readable message.
    pub message: String,
    /// The module list, for `module.list`.
    pub data: Option<Vec<Module>>,
}

/// A command to run.
#[derive(Debug)]
pub struct ExecuteCommandRequest {
    /// Requesting principal.
    pub principal_id: String,
    /// Command name (e.g. `module.install`).
    pub command: String,
    /// Resource the permission is asked on.
    pub resource: String,
    /// Permission asked.
    pub permission: Permission,
    /// Arguments.
    pub args: ExecuteCommandArgs,
}

/// The message of a refused command.
pub open spec fn denied_message(principal: Seq<char>, permission: Permission, resource: Seq<char>) -> Seq<char> {
    "principal "@ + principal + " denied "@ + permission_name(permission) + " on "@ + resource
}

/// The field `key` of the arguments, or `default`.
pub open spec fn field_or(args: ExecuteCommandArgs, key: Seq<char>, default: Seq<char>) -> Seq<char> {
    match lookup(args.fields@, key) {
        Some(v) => v,
        None => default,
    }
}

/// The list `key` of the arguments, or the empty list.
pub open spec fn list_or_empty(args: ExecuteCommandArgs, key: Seq<char>) -> Seq<String> {
    match list_lookup(args.lists@, key) {
        Some(l) => l,
        None => Seq::empty(),
    }
}

/// The principal kind named by the `kind` argument (a user otherwise).
pub open spec fn kind_of(kind: Option<Seq<char>>) -> PrincipalKind {
    if kind == Some("service"@) {
        PrincipalKind::Service
    } else if kind == Some("plugin"@) {
        PrincipalKind::Plugin
    } else if kind == Some("ai_agent"@) {
        PrincipalKind::AiAgent
    } else {
        PrincipalKind::User
    }
}

/// `n` copies of "00".
pub open spec fn zeros(n: nat) -> Seq<char>
    decreases n,
{
    if n == 0 {
        Seq::empty()
    } else {
        zeros((n - 1) as nat) + "00"@
    }
}

fn zero_hex(n: usize) -> (s: String)
    ensures
        s@ == zeros(n as nat),
{
    let mut s = String::new();
    let mut i: usize = 0;
    while i < n
        invariant
            i <= n,
            s@ == zeros(i as nat),
        decreases n - i,
    {
        push_str(&mut s, "00");
        i = i + 1;
    }
    s
}

/// The manifest that `plugin.register` builds from its arguments.
pub open spec fn manifest_from(args: ExecuteCommandArgs, id: Seq<char>) -> ManifestView {
    ManifestView {
        id,
        name: field_or(args, "name"@, Seq::empty()),
        version: field_or(args, "version"@, "0.1.0"@),
        owner: field_or(args, "owner"@, Seq::empty()),
        signer_public_key: field_or(args, "signer"@, zeros(32)),
        capabilities: list_or_empty(args, "capabilities"@),
        resource_limits: PluginResourceLimits {
            max_cpu_percent: 10,
            max_memory_mb: 64,
            max_commands_per_sec: 100,
            max_command_duration_ms: 1000,
        },
        extends_module: field_or(args, "extends"@, Seq::empty()),
        signature: field_or(args, "signature"@, zeros(64)),
    }
}

/// The commands that need an `id` argument.
pub open spec fn needs_id(command: Seq<char>) -> bool {
    ||| command == "module.install"@
    ||| command == "module.enable"@
    ||| command == "module.pause"@
    ||| command == "module.resume"@
    ||| command == "module.uninstall"@
    ||| command == "plugin.register"@
    ||| command == "plugin.activate"@
    ||| command == "plugin.stop"@
    ||| command == "principal.register"@
}

/// The commands the handler knows.
pub open spec fn known_command(command: Seq<char>) -> bool {
    ||| needs_id(command)
    ||| command == "module.list"@
    ||| command == "plugin.list"@
    ||| command == "principal.list"@
}

/// The state a simple module command leads to.
pub open spec fn module_target(command: Seq<char>) -> ModuleState {
    if command == "module.enable"@ {
        ModuleState::Enabled
    } else if command == "module.pause"@ {
        ModuleState::Paused
    } else if command == "module.resume"@ {
        ModuleState::Enabled
    } else {
        ModuleState::Removed
    }
}

/// Whether a simple module command may run on a module in `state`.
pub open spec fn module_step_allowed(command: Seq<char>, state: ModuleState) -> bool {
    if command == "module.uninstall"@ {
        state != ModuleState::Enabled
    } else {
        valid_transition(state, module_target(command))
    }
}

/// What a command's success answers.
pub open spec fn ok_answer(r: Result<ExecuteCommandResponse, HandlerError>, message: Seq<char>) -> bool {
    r matches Ok(resp) && resp.ok && resp.message@ == message
}

/// What a failed operation answers.
pub open spec fn decode_failure(r: Result<ExecuteCommandResponse, HandlerError>) -> bool {
    r matches Err(e) && e.scope == ErrorScope::Protocol && e.code == ErrorCode::DecodeFailed
}

/// What `module.list` answers: the modules, and their number in the
/// message.
pub open spec fn module_list_answer(r: Result<ExecuteCommandResponse, HandlerError>, modules: Seq<ModuleView>) -> bool {
    match r {
        Ok(resp) => {
            &&& resp.ok
            &&& resp.message@ == decimal_text(modules.len()) + " modules"@
            &&& match resp.data {
                Some(d) => d@.map_values(|m: Module| m@) == modules,
                None => false,
            }
        },
        Err(_) => false,
    }
}

/// Whether the subsystems other than those listed are unchanged.
pub open spec fn others_unchanged(o: NexoraCore, n: NexoraCore, modules: bool, plugins: bool, principals: bool) -> bool {
    &&& (!modules ==> n.module_manager().modules() == o.module_manager().modules())
    &&& (!plugins ==> n.plugin_manager().plugins() == o.plugin_manager().plugins())
    &&& (!principals ==> n.permissions.principals() == o.permissions.principals())
    &&& n.permissions.roles() == o.permissions.roles()
    &&& n.registry.instances() == o.registry.instances()
    &&& (!modules && !plugins ==> n.events == o.events)
}

/// Whether the core's bus records the lifecycle event `name` of `id` when
/// the command succeeded, and is unchanged when it failed.
pub open spec fn lifecycle_recorded(o: NexoraCore, n: NexoraCore, ok: bool, name: Seq<char>, id: Seq<char>) -> bool {
    if ok {
        emitted(Some(o.events), Some(n.events), name, id)
    } else {
        n.events == o.events
    }
}

/// What installing `module` does to the installed modules, by the result.
pub open spec fn install_outcome(
    o: Map<Seq<char>, ModuleView>,
    n: Map<Seq<char>, ModuleView>,
    module: ModuleView,
    r: Result<(), ModuleError>,
) -> bool {
    match r {
        Ok(()) => {
            &&& !o.contains_key(module.id)
            &&& n.dom() == o.dom().insert(module.id)
            &&& forall|k: Seq<char>| k != module.id && #[trigger] o.contains_key(k) ==> n[k] == o[k]
            &&& {
                let m = n[module.id];
                &&& m.id == module.id && m.name == module.name && m.version == module.version
                &&& m.owner == module.owner && m.capabilities == module.capabilities
                &&& m.resource_budget == module.resource_budget
                &&& m.state == ModuleState::Installed
                &&& m.transition_count == 1
                &&& m.last_transition == m.installed_at
            }
        },
        Err(ModuleError::AlreadyExists(e)) => o.contains_key(module.id) && n == o && e@ == module.id,
        Err(_) => false,
    }
}

/// What moving module `id` to `target` (enabling, pausing, resuming) does
/// to the installed modules, by the result.
pub open spec fn module_transition_outcome(
    o: Map<Seq<char>, ModuleView>,
    n: Map<Seq<char>, ModuleView>,
    id: Seq<char>,
    target: ModuleState,
    r: Result<(), ModuleError>,
) -> bool {
    match r {
        Ok(()) => {
            &&& o.contains_key(id)
            &&& valid_transition(o[id].state, target)
            &&& n.dom() == o.dom()
            &&& forall|k: Seq<char>| k != id && #[trigger] o.contains_key(k) ==> n[k] == o[k]
            &&& changed_state(o[id], n[id], target)
        },
        Err(ModuleError::NotFound(e)) => !o.contains_key(id) && e@ == id && n == o,
        Err(ModuleError::InvalidTransition { id: e, from, to }) => {
            &&& o.contains_key(id) && !valid_transition(o[id].state, target)
            &&& e@ == id && from == o[id].state && to == target && n == o
        },
        Err(_) => false,
    }
}

/// What uninstalling module `id` does to the installed modules, by the
/// result.
pub open spec fn uninstall_outcome(
    o: Map<Seq<char>, ModuleView>,
    n: Map<Seq<char>, ModuleView>,
    id: Seq<char>,
    r: Result<(), ModuleError>,
) -> bool {
    match r {
        Ok(()) => {
            &&& o.contains_key(id)
            &&& o[id].state != ModuleState::Enabled
            &&& n.dom() == o.dom()
            &&& forall|k: Seq<char>| k != id && #[trigger] o.contains_key(k) ==> n[k] == o[k]
            &&& changed_state(o[id], n[id], ModuleState::Removed)
        },
        Err(ModuleError::NotFound(e)) => !o.contains_key(id) && e@ == id && n == o,
        Err(ModuleError::WrongState { id: e, state, expected }) => {
            &&& o.contains_key(id) && o[id].state == ModuleState::Enabled && e@ == id
            &&& state == ModuleState::Enabled && expected == ModuleState::Installed && n == o
        },
        Err(_) => false,
    }
}

/// What registering `manifest`, whose canonical encoding is `canonical`,
/// does to the plugins, by the result.
pub open spec fn plugin_register_outcome(
    o: Map<Seq<char>, PluginView>,
    n: Map<Seq<char>, PluginView>,
    manifest: ManifestView,
    canonical: Seq<u8>,
    r: Result<(), PluginError>,
) -> bool {
    match r {
        Ok(()) => {
            &&& !o.contains_key(manifest.id)
            &&& n == o.insert(
                manifest.id,
                PluginView {
                    manifest,
                    state: PluginState::Pending,
                    integrity_hash: integrity_of(canonical),
                    registered_at: 0,
                    commands_executed: 0,
                },
            )
        },
        Err(e) => {
            &&& e matches PluginError::AlreadyExists(x) && x@ == manifest.id
            &&& o.contains_key(manifest.id)
            &&& n == o
        },
    }
}

/// What moving plugin `id` from `expected` to `target` does to the plugins,
/// by the result.
pub open spec fn plugin_transition_outcome(
    o: Map<Seq<char>, PluginView>,
    n: Map<Seq<char>, PluginView>,
    id: Seq<char>,
    expected: PluginState,
    target: PluginState,
    r: Result<(), PluginError>,
) -> bool {
    match r {
        Ok(()) => {
            &&& o.contains_key(id)
            &&& o[id].state == expected
            &&& n == o.insert(id, PluginView { state: target, ..o[id] })
        },
        Err(PluginError::NotFound(e)) => e@ == id && !o.contains_key(id) && n == o,
        Err(PluginError::WrongState { id: e, state, expected: x }) => {
            &&& e@ == id && x == expected && o.contains_key(id)
            &&& state == o[id].state && state != expected && n == o
        },
        Err(_) => false,
    }
}

/// What removing plugin `id` does to the plugins, by the result.
pub open spec fn plugin_remove_outcome(
    o: Map<Seq<char>, PluginView>,
    n: Map<Seq<char>, PluginView>,
    id: Seq<char>,
    r: Result<(), PluginError>,
) -> bool {
    match r {
        Ok(()) => o.contains_key(id) && n == o.insert(id, PluginView { state: PluginState::Removed, ..o[id] }),
        Err(e) => e matches PluginError::NotFound(x) && x@ == id && !o.contains_key(id) && n == o,
    }
}

/// What counting a command of plugin `id` does to the plugins, by the
/// result (the count stops at `u64::MAX`).
pub open spec fn plugin_record_outcome(
    o: Map<Seq<char>, PluginView>,
    n: Map<Seq<char>, PluginView>,
    id: Seq<char>,
    r: Result<(), PluginError>,
) -> bool {
    match r {
        Ok(()) => {
            &&& o.contains_key(id)
            &&& o[id].state == PluginState::Active
            &&& n == o.insert(
                id,
                PluginView {
                    commands_executed: if o[id].commands_executed < u64::MAX {
                        (o[id].commands_executed + 1) as u64
                    } else {
                        u64::MAX
                    },
                    ..o[id]
                },
            )
        },
        Err(PluginError::NotFound(e)) => e@ == id && !o.contains_key(id) && n == o,
        Err(PluginError::WrongState { id: e, state, expected }) => {
            &&& e@ == id && expected == PluginState::Active && o.contains_key(id)
            &&& state == o[id].state && state != PluginState::Active && n == o
        },
        Err(_) => false,
    }
}

/// Whether the registry, the permissions, the configuration, the secrets and
/// the health reports are as they were.
pub open spec fn services_unchanged(o: NexoraCore, n: NexoraCore) -> bool {
    &&& n.registry == o.registry
    &&& n.permissions == o.permissions
    &&& n.config == o.config
    &&& n.secrets == o.secrets
    &&& n.health == o.health
}

/// The lifecycle event of a module command.
pub open spec fn module_command_event(cmd: Seq<char>) -> Seq<char> {
    if cmd == "module.install"@ {
        "module.installed"@
    } else if cmd == "module.pause"@ {
        "module.paused"@
    } else if cmd == "module.uninstall"@ {
        "module.uninstalled"@
    } else {
        "module.enabled"@
    }
}

/// The lifecycle event of a plugin command.
pub open spec fn plugin_command_event(cmd: Seq<char>) -> Seq<char> {
    if cmd == "plugin.register"@ {
        "plugin.registered"@
    } else if cmd == "plugin.activate"@ {
        "plugin.activated"@
    } else {
        "plugin.stopped"@
    }
}

proof fn lemma_commands_distinct()
    ensures
        "module.install"@ != "module.enable"@,
        "module.install"@ != "module.pause"@,
        "module.install"@ != "module.resume"@,
        "module.install"@ != "module.uninstall"@,
        "module.install"@ != "plugin.register"@,
        "module.install"@ != "plugin.activate"@,
        "module.install"@ != "plugin.stop"@,
        "module.install"@ != "principal.register"@,
        "module.install"@ != "module.list"@,
        "module.install"@ != "plugin.list"@,
        "module.install"@ != "principal.list"@,
        "module.enable"@ != "module.pause"@,
        "module.enable"@ != "module.resume"@,
        "module.enable"@ != "module.uninstall"@,
        "module.enable"@ != "plugin.register"@,
        "module.enable"@ != "plugin.activate"@,
        "module.enable"@ != "plugin.stop"@,
        "module.enable"@ != "principal.register"@,
        "module.enable"@ != "module.list"@,
        "module.enable"@ != "plugin.list"@,
        "module.enable"@ != "principal.list"@,
        "module.pause"@ != "module.resume"@,
        "module.pause"@ != "module.uninstall"@,
        "module.pause"@ != "plugin.register"@,
        "module.pause"@ != "plugin.activate"@,
        "module.pause"@ != "plugin.stop"@,
        "module.pause"@ != "principal.register"@,
        "module.pause"@ != "module.list"@,
        "module.pause"@ != "plugin.list"@,
        "module.pause"@ != "principal.list"@,
        "module.resume"@ != "module.uninstall"@,
        "module.resume"@ != "plugin.register"@,
        "module.resume"@ != "plugin.activate"@,
        "module.resume"@ != "plugin.stop"@,
        "module.resume"@ != "principal.register"@,
        "module.resume"@ != "module.list"@,
        "module.resume"@ != "plugin.list"@,
        "module.resume"@ != "principal.list"@,
        "module.uninstall"@ != "plugin.register"@,
        "module.uninstall"@ != "plugin.activate"@,
        "module.uninstall"@ != "plugin.stop"@,
        "module.uninstall"@ != "principal.register"@,
        "module.uninstall"@ != "module.list"@,
        "module.uninstall"@ != "plugin.list"@,
        "module.uninstall"@ != "principal.list"@,
        "plugin.register"@ != "plugin.activate"@,
        "plugin.register"@ != "plugin.stop"@,
        "plugin.register"@ != "principal.register"@,
        "plugin.register"@ != "module.list"@,
        "plugin.register"@ != "plugin.list"@,
        "plugin.register"@ != "principal.list"@,
        "plugin.activate"@ != "plugin.stop"@,
        "plugin.activate"@ != "principal.register"@,
        "plugin.activate"@ != "module.list"@,
        "plugin.activate"@ != "plugin.list"@,
        "plugin.activate"@ != "principal.list"@,
        "plugin.stop"@ != "principal.register"@,
        "plugin.stop"@ != "module.list"@,
        "plugin.stop"@ != "plugin.list"@,
        "plugin.stop"@ != "principal.list"@,
        "principal.register"@ != "module.list"@,
        "principal.register"@ != "plugin.list"@,
        "principal.register"@ != "principal.list"@,
        "module.list"@ != "plugin.list"@,
        "module.list"@ != "principal.list"@,
        "plugin.list"@ != "principal.list"@,
{
    reveal_strlit("module.install");
    assert("module.install"@.len() == 14);
    reveal_strlit("module.enable");
    assert("module.enable"@.len() == 13);
    reveal_strlit("module.pause");
    assert("module.pause"@.len() == 12);
    reveal_strlit("module.resume");
    assert("module.resume"@.len() == 13);
    reveal_strlit("module.uninstall");
    assert("module.uninstall"@.len() == 16);
    reveal_strlit("plugin.register");
    assert("plugin.register"@.len() == 15);
    reveal_strlit("plugin.activate");
    assert("plugin.activate"@.len() == 15);
    reveal_strlit("plugin.stop");
    assert("plugin.stop"@.len() == 11);
    reveal_strlit("principal.register");
    assert("principal.register"@.len() == 18);
    reveal_strlit("module.list");
    assert("module.list"@.len() == 11);
    reveal_strlit("plugin.list");
    assert("plugin.list"@.len() == 11);
    reveal_strlit("principal.list");
    assert("principal.list"@.len() == 14);
    assert("module.install"@[0] != "principal.list"@[0]);
    assert("module.enable"@[7] != "module.resume"@[7]);
    assert("plugin.register"@[7] != "plugin.activate"@[7]);
    assert("plugin.stop"@[0] != "module.list"@[0]);
    assert("plugin.stop"@[7] != "plugin.list"@[7]);
    assert("module.list"@[0] != "plugin.list"@[0]);
}

/// The core handler.
#[derive(Debug)]
pub struct CoreHandler {
    nexora: NexoraCore,
}

impl CoreHandler {
    /// The core this handler works on.
    pub closed spec fn state(&self) -> NexoraCore {
        self.nexora
    }

    /// A handler around a core.
    pub fn new(nexora: NexoraCore) -> (h: CoreHandler)
        ensures
            h.state() == nexora,
    {
        CoreHandler { nexora }
    }

    /// The core.
    pub fn nexora_core(&self) -> (c: &NexoraCore)
        ensures
            *c == self.state(),
    {
        &self.nexora
    }

    /// The core, for changes.
    pub fn nexora_core_mut(&mut self) -> (c: &mut NexoraCore)
        ensures
            *c == old(self).state(),
            final(self).state() == *final(c),
    {
        &mut self.nexora
    }

    /// Answer a ping.
    pub fn ping(&self) -> (r: PingResponse)
        ensures
            r.pong,
    {
        PingResponse { pong: true }
    }

    /// Acknowledge a subscription (delivery is the transport's business).
    pub fn subscribe_event(&self) -> (r: SubscribeEventResponse)
        ensures
            r.ok,
    {
        SubscribeEventResponse { ok: true }
    }

    /// Register a service instance at time `now`, healthy, with the
    /// defaults for what the request leaves out (no capabilities, region
    /// `unknown`, priority 0).
    pub fn register_service_at(&mut self, req: RegisterServiceRequest, now: i64) -> (r: Result<
        RegisterServiceResponse,
        HandlerError,
    >)
        requires
            old(self).state().wf(),
        ensures
            final(self).state().wf(),
            match r {
                Ok(resp) => {
                    &&& resp.ok
                    &&& !old(self).state().registry.instances().contains_key(req.instance_id@)
                    &&& final(self).state().registry.instances() == old(self).state().registry.instances().insert(
                        req.instance_id@,
                        InstanceView {
                            name: req.name@,
                            instance_id: req.instance_id@,
                            addr: req.addr@,
                            capabilities: match req.capabilities {
                                Some(c) => c@,
                                None => Seq::empty(),
                            },
                            region: match req.region {
                                Some(g) => g@,
                                None => "unknown"@,
                            },
                            last_heartbeat: now,
                            healthy: true,
                            priority: match req.priority {
                                Some(p) => p,
                                None => 0,
                            },
                        },
                    )
                },
                Err(e) => {
                    &&& e.scope == ErrorScope::Protocol && e.code == ErrorCode::DecodeFailed
                    &&& e.message@ == "instance already registered: "@ + req.instance_id@
                    &&& old(self).state().registry.instances().contains_key(req.instance_id@)
                    &&& final(self).state().registry.instances() == old(self).state().registry.instances()
                },
            },
            final(self).state().module_manager() == old(self).state().module_manager(),
            final(self).state().events == old(self).state().events,
            final(self).state().plugin_manager() == old(self).state().plugin_manager(),
            final(self).state().permissions == old(self).state().permissions,
    {
        let capabilities = match req.capabilities {
            Some(c) => c,
            None => Vec::new(),
        };
        let region = match req.region {
            Some(g) => g,
            None => "unknown".to_owned(),
        };
        let priority = match req.priority {
            Some(p) => p,
            None => 0,
        };
        let instance = ServiceInstance {
            name: req.name,
            instance_id: req.instance_id,
            addr: req.addr,
            capabilities,
            region,
            last_heartbeat: now,
            healthy: true,
            priority,
        };
        match self.nexora.registry.register(instance) {
            Ok(()) => Ok(RegisterServiceResponse { ok: true }),
            Err(e) => {
                let message = e.to_string();
                Err(HandlerError { scope: ErrorScope::Protocol, code: ErrorCode::DecodeFailed, message })
            },
        }
    }

    /// Register a service instance now.
    pub fn register_service(&mut self, req: RegisterServiceRequest) -> (r: Result<
        RegisterServiceResponse,
        HandlerError,
    >)
        requires
            old(self).state().wf(),
        ensures
            final(self).state().wf(),
            r is Ok <==> !old(self).state().registry.instances().contains_key(req.instance_id@),
    {
        self.register_service_at(req, now_unix_nanos())
    }

    /// The registered instances of a service name.
    pub fn discover_service(&self, name: &str) -> (r: DiscoverServiceResponse)
        requires
            self.state().wf(),
        ensures
            models(r.instances@) == self.state().registry.instances_of(name@),
    {
        DiscoverServiceResponse { instances: self.nexora.registry.lookup(name) }
    }

    /// Publish an event with a text payload on the core's bus.
    pub fn publish_event(&mut self, name: String, payload: String) -> (r: PublishEventResponse)
        requires
            old(self).state().wf(),
            old(self).state().events.events().len() < u64::MAX - 1,
        ensures
            final(self).state().wf(),
            r.event_id == old(self).state().events.events().len() + 1,
            final(self).state().events.events().drop_last() == old(self).state().events.events(),
            final(self).state().events.events().last().name == name@,
            final(self).state().events.events().last().payload == PayloadView::Text(payload@),
            final(self).state().module_manager() == old(self).state().module_manager(),
            final(self).state().registry == old(self).state().registry,
            final(self).state().plugin_manager() == old(self).state().plugin_manager(),
            final(self).state().permissions == old(self).state().permissions,
    {
        let ghost n = name@;
        let ghost p = payload@;
        let id = self.nexora.events.publish_event(name, EventPayload::Text(payload));
        PublishEventResponse { event_id: id }
    }

    /// Replay the events from `from_id` on, those whose name begins with
    /// `filter` when it is not empty.
    pub fn replay_events(&self, from_id: u64, filter: &str) -> (r: ReplayEventsResponse)
        requires
            self.state().wf(),
        ensures
            filter@.len() == 0 ==> event_views(r.events@) == self.state().events.events().filter(
                |e: EventView| e.id >= from_id,
            ),
            filter@.len() > 0 ==> event_views(r.events@) == self.state().events.events().filter(
                |e: EventView| e.id >= from_id && has_prefix(e.name, filter@),
            ),
    {
        if filter.unicode_len() == 0 {
            ReplayEventsResponse { events: self.nexora.events.replay(from_id) }
        } else {
            ReplayEventsResponse { events: self.nexora.events.replay_filtered(from_id, filter) }
        }
    }

    /// Run a command for a principal. It runs only when the principal
    /// holds the permission on the resource; commands that act on one
    /// module, plugin or principal need an `id` argument. A plugin's
    /// integrity hash is taken over what `canonical` returns for its
    /// manifest.
    pub fn execute_command<F: Fn(&PluginManifest) -> Vec<u8>>(
        &mut self,
        req: ExecuteCommandRequest,
        canonical: F,
    ) -> (r: Result<ExecuteCommandResponse, HandlerError>)
        requires
            old(self).state().wf(),
            req.args.fields.wf(),
            forall|m: &PluginManifest| #[trigger] canonical.requires((m,)),
            forall|k: Seq<char>| #[trigger] old(self).state().module_manager().modules().contains_key(k)
                ==> old(self).state().module_manager().modules()[k].transition_count < u64::MAX,
        ensures
            final(self).state().wf(),
            ({
                let o = old(self).state();
                let n = final(self).state();
                let cmd = req.command@;
                let id = lookup(req.args.fields@, "id"@);
                if !o.permissions.allowed(req.principal_id@, req.permission, req.resource@) {
                    &&& r matches Err(e) && e.scope == ErrorScope::Authz && e.code == ErrorCode::Forbidden
                        && e.message@ == denied_message(req.principal_id@, req.permission, req.resource@)
                    &&& n == o
                } else if !known_command(cmd) {
                    &&& r matches Err(e) && e.scope == ErrorScope::Protocol && e.code == ErrorCode::UnknownOpcode
                        && e.message@ == "unknown command: "@ + cmd
                    &&& n == o
                } else if needs_id(cmd) && id is None {
                    &&& r matches Err(e) && e.scope == ErrorScope::Protocol && e.code == ErrorCode::DecodeFailed
                        && e.message@ == "missing id"@
                    &&& n == o
                } else if cmd == "module.install"@ {
                    let id = id->0;
                    &&& others_unchanged(o, n, true, false, false)
                    &&& lifecycle_recorded(o, n, r is Ok, "module.installed"@, id)
                    &&& if o.module_manager().modules().contains_key(id) {
                        decode_failure(r) && r->Err_0.message@ == "module already exists: "@ + id
                            && n.module_manager().modules() == o.module_manager().modules()
                    } else {
                        &&& ok_answer(r, "module installed"@)
                        &&& n.module_manager().modules().dom() == o.module_manager().modules().dom().insert(id)
                        &&& forall|k: Seq<char>| k != id && #[trigger] o.module_manager().modules().contains_key(k)
                            ==> n.module_manager().modules()[k] == o.module_manager().modules()[k]
                        &&& {
                            let m = n.module_manager().modules()[id];
                            &&& m.id == id && m.state == ModuleState::Installed
                            &&& m.name == field_or(req.args, "name"@, Seq::empty())
                            &&& m.version == field_or(req.args, "version"@, "0.1.0"@)
                            &&& m.owner == field_or(req.args, "owner"@, Seq::empty())
                            &&& m.capabilities == list_or_empty(req.args, "capabilities"@)
                        }
                    }
                } else if cmd == "module.enable"@ || cmd == "module.pause"@ || cmd == "module.resume"@ || cmd
                    == "module.uninstall"@ {
                    let id = id->0;
                    &&& others_unchanged(o, n, true, false, false)
                    &&& lifecycle_recorded(o, n, r is Ok, module_command_event(cmd), id)
                    &&& if o.module_manager().modules().contains_key(id) && module_step_allowed(
                        cmd,
                        o.module_manager().modules()[id].state,
                    ) {
                        &&& ok_answer(r, "module "@ + id + " transition complete"@)
                        &&& n.module_manager().modules().dom() == o.module_manager().modules().dom()
                        &&& forall|k: Seq<char>| k != id && #[trigger] o.module_manager().modules().contains_key(k)
                            ==> n.module_manager().modules()[k] == o.module_manager().modules()[k]
                        &&& changed_state(o.module_manager().modules()[id], n.module_manager().modules()[id], module_target(cmd))
                    } else {
                        decode_failure(r) && n.module_manager().modules() == o.module_manager().modules()
                    }
                } else if cmd == "module.list"@ {
                    &&& module_list_answer(r, o.module_manager().module_seq())
                    &&& n == o
                } else if cmd == "plugin.register"@ {
                    let id = id->0;
                    &&& others_unchanged(o, n, false, true, false)
                    &&& lifecycle_recorded(o, n, r is Ok, "plugin.registered"@, id)
                    &&& if o.plugin_manager().plugins().contains_key(id) {
                        decode_failure(r) && r->Err_0.message@ == "plugin already registered: "@ + id
                            && n.plugin_manager().plugins() == o.plugin_manager().plugins()
                    } else {
                        &&& ok_answer(r, "plugin registered"@)
                        &&& exists|m: PluginManifest, bytes: Vec<u8>|
                            {
                                &&& m@ == manifest_from(req.args, id)
                                &&& #[trigger] canonical.ensures((&m,), bytes)
                                &&& n.plugin_manager().plugins() == o.plugin_manager().plugins().insert(
                                    id,
                                    PluginView {
                                        manifest: m@,
                                        state: PluginState::Pending,
                                        integrity_hash: integrity_of(bytes@),
                                        registered_at: 0,
                                        commands_executed: 0,
                                    },
                                )
                            }
                    }
                } else if cmd == "plugin.activate"@ || cmd == "plugin.stop"@ {
                    let id = id->0;
                    let expected = if cmd == "plugin.activate"@ {
                        PluginState::Verified
                    } else {
                        PluginState::Active
                    };
                    let target = if cmd == "plugin.activate"@ {
                        PluginState::Active
                    } else {
                        PluginState::Stopped
                    };
                    &&& others_unchanged(o, n, false, true, false)
                    &&& lifecycle_recorded(o, n, r is Ok, plugin_command_event(cmd), id)
                    &&& if o.plugin_manager().plugins().contains_key(id) && o.plugin_manager().plugins()[id].state == expected {
                        &&& ok_answer(r, "plugin "@ + id + " transition complete"@)
                        &&& n.plugin_manager().plugins() == o.plugin_manager().plugins().insert(
                            id,
                            PluginView { state: target, ..o.plugin_manager().plugins()[id] },
                        )
                    } else {
                        decode_failure(r) && n.plugin_manager().plugins() == o.plugin_manager().plugins()
                    }
                } else if cmd == "plugin.list"@ {
                    &&& ok_answer(r, decimal_text(o.plugin_manager().plugin_seq().len()) + " plugins"@)
                    &&& n == o
                } else if cmd == "principal.register"@ {
                    let id = id->0;
                    &&& ok_answer(r, "principal "@ + id + " registered"@)
                    &&& others_unchanged(o, n, false, false, true)
                    &&& n.permissions.principals() == o.permissions.principals().insert(
                        id,
                        PrincipalView {
                            id,
                            name: field_or(req.args, "name"@, id),
                            kind: kind_of(lookup(req.args.fields@, "kind"@)),
                            roles: list_or_empty(req.args, "roles"@),
                        },
                    )
                } else {
                    &&& ok_answer(r, decimal_text(o.permissions.principal_seq().len()) + " principals"@)
                    &&& n == o
                }
            }),
    {
        if !self.nexora.permissions.is_allowed(req.principal_id.as_str(), req.permission, req.resource.as_str()) {
            let mut message = "principal ".to_owned();
            push_str(&mut message, req.principal_id.as_str());
            push_str(&mut message, " denied ");
            let p = req.permission.to_string();
            push_str(&mut message, p.as_str());
            push_str(&mut message, " on ");
            push_str(&mut message, req.resource.as_str());
            return Err(HandlerError { scope: ErrorScope::Authz, code: ErrorCode::Forbidden, message });
        }
        let cmd = req.command.as_str();
        proof {
            lemma_commands_distinct();
        }
        let needs = str_eq(cmd, "module.install") || str_eq(cmd, "module.enable") || str_eq(cmd, "module.pause")
            || str_eq(cmd, "module.resume") || str_eq(cmd, "module.uninstall") || str_eq(cmd, "plugin.register")
            || str_eq(cmd, "plugin.activate") || str_eq(cmd, "plugin.stop") || str_eq(cmd, "principal.register");
        let listing = str_eq(cmd, "module.list") || str_eq(cmd, "plugin.list") || str_eq(cmd, "principal.list");
        if !needs && !listing {
            let mut message = "unknown command: ".to_owned();
            push_str(&mut message, cmd);
            return Err(HandlerError { scope: ErrorScope::Protocol, code: ErrorCode::UnknownOpcode, message });
        }
        if listing {
            if str_eq(cmd, "module.list") {
                let modules = self.nexora.lifecycle.modules.list();
                let mut message = decimal(modules.len() as u64);
                push_str(&mut message, " modules");
                return Ok(ExecuteCommandResponse { ok: true, message, data: Some(modules) });
            } else if str_eq(cmd, "plugin.list") {
                let plugins = self.nexora.lifecycle.plugins.list();
                let mut message = decimal(plugins.len() as u64);
                push_str(&mut message, " plugins");
                return Ok(ExecuteCommandResponse { ok: true, message, data: None });
            } else {
                let principals = self.nexora.permissions.list_principals();
                let mut message = decimal(principals.len() as u64);
                push_str(&mut message, " principals");
                return Ok(ExecuteCommandResponse { ok: true, message, data: None });
            }
        }
        let id = match req.args.get_string("id") {
            Some(id) => id,
            None => {
                return Err(
                    HandlerError {
                        scope: ErrorScope::Protocol,
                        code: ErrorCode::DecodeFailed,
                        message: "missing id".to_owned(),
                    },
                );
            },
        };
        if str_eq(cmd, "module.install") {
            self.cmd_module_install(id, &req.args)
        } else if str_eq(cmd, "module.enable") || str_eq(cmd, "module.pause") || str_eq(cmd, "module.resume")
            || str_eq(cmd, "module.uninstall") {
            self.cmd_simple_module(cmd, id)
        } else if str_eq(cmd, "plugin.register") {
            self.cmd_plugin_register(id, &req.args, canonical)
        } else if str_eq(cmd, "plugin.activate") || str_eq(cmd, "plugin.stop") {
            self.cmd_simple_plugin(cmd, id)
        } else {
            self.cmd_principal_register(id, &req.args)
        }
    }

    fn text_arg(args: &ExecuteCommandArgs, key: &str, default: &str) -> (s: String)
        ensures
            s@ == field_or(*args, key@, default@),
    {
        match args.get_string(key) {
            Some(v) => v,
            None => default.to_owned(),
        }
    }

    fn list_arg(args: &ExecuteCommandArgs, key: &str) -> (l: Vec<String>)
        ensures
            l@ == list_or_empty(*args, key@),
    {
        match args.get_string_list(key) {
            Some(v) => v,
            None => Vec::new(),
        }
    }

    fn cmd_module_install(&mut self, id: String, args: &ExecuteCommandArgs) -> (r: Result<
        ExecuteCommandResponse,
        HandlerError,
    >)
        requires
            old(self).state().wf(),
        ensures
            final(self).state().wf(),
            ({
                let o = old(self).state();
                let n = final(self).state();
                &&& others_unchanged(o, n, true, false, false)
                &&& lifecycle_recorded(o, n, r is Ok, "module.installed"@, id@)
                &&& if o.module_manager().modules().contains_key(id@) {
                    decode_failure(r) && r->Err_0.message@ == "module already exists: "@ + id@
                        && n.module_manager().modules() == o.module_manager().modules()
                } else {
                    &&& ok_answer(r, "module installed"@)
                    &&& n.module_manager().modules().dom() == o.module_manager().modules().dom().insert(id@)
                    &&& forall|k: Seq<char>| k != id@ && #[trigger] o.module_manager().modules().contains_key(k)
                        ==> n.module_manager().modules()[k] == o.module_manager().modules()[k]
                    &&& {
                        let m = n.module_manager().modules()[id@];
                        &&& m.id == id@ && m.state == ModuleState::Installed
                        &&& m.name == field_or(*args, "name"@, Seq::empty())
                        &&& m.version == field_or(*args, "version"@, "0.1.0"@)
                        &&& m.owner == field_or(*args, "owner"@, Seq::empty())
                        &&& m.capabilities == list_or_empty(*args, "capabilities"@)
                    }
                }
            }),
    {
        let module = Module {
            id,
            name: Self::text_arg(args, "name", ""),
            version: Self::text_arg(args, "version", "0.1.0"),
            state: ModuleState::Installed,
            owner: Self::text_arg(args, "owner", ""),
            capabilities: Self::list_arg(args, "capabilities"),
            resource_budget: ResourceBudget::default(),
            installed_at: 0,
            last_transition: 0,
            transition_count: 0,
        };
        proof {
            reveal_strlit("");
            assert(""@ =~= Seq::<char>::empty());
        }
        let res = self.nexora.install_module(module);
        match res {
            Ok(()) => Ok(ExecuteCommandResponse { ok: true, message: "module installed".to_owned(), data: None }),
            Err(e) => {
                let message = e.to_string();
                Err(HandlerError { scope: ErrorScope::Protocol, code: ErrorCode::DecodeFailed, message })
            },
        }
    }

    fn cmd_simple_module(&mut self, cmd: &str, id: String) -> (r: Result<ExecuteCommandResponse, HandlerError>)
        requires
            old(self).state().wf(),
            cmd@ == "module.enable"@ || cmd@ == "module.pause"@ || cmd@ == "module.resume"@ || cmd@
                == "module.uninstall"@,
            forall|k: Seq<char>| #[trigger] old(self).state().module_manager().modules().contains_key(k)
                ==> old(self).state().module_manager().modules()[k].transition_count < u64::MAX,
        ensures
            final(self).state().wf(),
            ({
                let o = old(self).state();
                let n = final(self).state();
                &&& others_unchanged(o, n, true, false, false)
                &&& lifecycle_recorded(o, n, r is Ok, module_command_event(cmd@), id@)
                &&& if o.module_manager().modules().contains_key(id@) && module_step_allowed(
                    cmd@,
                    o.module_manager().modules()[id@].state,
                ) {
                    &&& ok_answer(r, "module "@ + id@ + " transition complete"@)
                    &&& n.module_manager().modules().dom() == o.module_manager().modules().dom()
                    &&& forall|k: Seq<char>| k != id@ && #[trigger] o.module_manager().modules().contains_key(k)
                        ==> n.module_manager().modules()[k] == o.module_manager().modules()[k]
                    &&& changed_state(o.module_manager().modules()[id@], n.module_manager().modules()[id@], module_target(cmd@))
                } else {
                    decode_failure(r) && n.module_manager().modules() == o.module_manager().modules()
                }
            }),
    {
        proof {
            lemma_commands_distinct();
        }
        let ghost om = old(self).state().module_manager().modules();
        let res = if str_eq(cmd, "module.enable") {
            let r = self.nexora.enable_module(id.as_str());
            assert(r is Ok <==> (om.contains_key(id@) && valid_transition(om[id@].state, ModuleState::Enabled)));
            r
        } else if str_eq(cmd, "module.pause") {
            let r = self.nexora.pause_module(id.as_str());
            assert(r is Ok <==> (om.contains_key(id@) && valid_transition(om[id@].state, ModuleState::Paused)));
            r
        } else if str_eq(cmd, "module.resume") {
            let r = self.nexora.resume_module(id.as_str());
            assert(r is Ok <==> (om.contains_key(id@) && valid_transition(om[id@].state, ModuleState::Enabled)));
            r
        } else {
            let r = self.nexora.uninstall_module(id.as_str());
            assert(r is Ok <==> (om.contains_key(id@) && om[id@].state != ModuleState::Enabled));
            r
        };
        assert(res is Ok <==> (old(self).state().module_manager().modules().contains_key(id@) && module_step_allowed(
            cmd@,
            old(self).state().module_manager().modules()[id@].state,
        )));
        match res {
            Ok(()) => {
                let mut message = "module ".to_owned();
                push_str(&mut message, id.as_str());
                push_str(&mut message, " transition complete");
                Ok(ExecuteCommandResponse { ok: true, message, data: None })
            },
            Err(e) => {
                let message = e.to_string();
                Err(HandlerError { scope: ErrorScope::Protocol, code: ErrorCode::DecodeFailed, message })
            },
        }
    }

    fn cmd_plugin_register<F: Fn(&PluginManifest) -> Vec<u8>>(
        &mut self,
        id: String,
        args: &ExecuteCommandArgs,
        canonical: F,
    ) -> (r: Result<ExecuteCommandResponse, HandlerError>)
        requires
            old(self).state().wf(),
            forall|m: &PluginManifest| #[trigger] canonical.requires((m,)),
        ensures
            final(self).state().wf(),
            ({
                let o = old(self).state();
                let n = final(self).state();
                &&& others_unchanged(o, n, false, true, false)
                &&& lifecycle_recorded(o, n, r is Ok, "plugin.registered"@, id@)
                &&& if o.plugin_manager().plugins().contains_key(id@) {
                    decode_failure(r) && r->Err_0.message@ == "plugin already registered: "@ + id@
                        && n.plugin_manager().plugins() == o.plugin_manager().plugins()
                } else {
                    &&& ok_answer(r, "plugin registered"@)
                    &&& exists|m: PluginManifest, bytes: Vec<u8>|
                        {
                            &&& m@ == manifest_from(*args, id@)
                            &&& #[trigger] canonical.ensures((&m,), bytes)
                            &&& n.plugin_manager().plugins() == o.plugin_manager().plugins().insert(
                                id@,
                                PluginView {
                                    manifest: m@,
                                    state: PluginState::Pending,
                                    integrity_hash: integrity_of(bytes@),
                                    registered_at: 0,
                                    commands_executed: 0,
                                },
                            )
                        }
                }
            }),
    {
        let signer_default = zero_hex(32);
        let signature_default = zero_hex(64);
        let manifest = PluginManifest {
            id,
            name: Self::text_arg(args, "name", ""),
            version: Self::text_arg(args, "version", "0.1.0"),
            owner: Self::text_arg(args, "owner", ""),
            signer_public_key: Self::text_arg(args, "signer", signer_default.as_str()),
            capabilities: Self::list_arg(args, "capabilities"),
            resource_limits: PluginResourceLimits::default(),
            extends_module: Self::text_arg(args, "extends", ""),
            signature: Self::text_arg(args, "signature", signature_default.as_str()),
        };
        proof {
            reveal_strlit("");
            assert(""@ =~= Seq::<char>::empty());
        }
        let bytes = canonical(&manifest);
        let ghost mv = manifest@;
        let ghost m = manifest;
        let ghost b = bytes;
        let res = self.nexora.register_plugin(manifest, bytes.as_slice());
        match res {
            Ok(()) => {
                assert(canonical.ensures((&m,), b));
                assert(m@ == manifest_from(*args, id@));
                assert(self.state().plugin_manager().plugins() == old(self).state().plugin_manager().plugins().insert(
                    id@,
                    PluginView {
                        manifest: m@,
                        state: PluginState::Pending,
                        integrity_hash: integrity_of(b@),
                        registered_at: 0,
                        commands_executed: 0,
                    },
                ));
                Ok(ExecuteCommandResponse { ok: true, message: "plugin registered".to_owned(), data: None })
            },
            Err(e) => {
                let message = e.to_string();
                Err(HandlerError { scope: ErrorScope::Protocol, code: ErrorCode::DecodeFailed, message })
            },
        }
    }

    fn cmd_simple_plugin(&mut self, cmd: &str, id: String) -> (r: Result<ExecuteCommandResponse, HandlerError>)
        requires
            old(self).state().wf(),
            cmd@ == "plugin.activate"@ || cmd@ == "plugin.stop"@,
        ensures
            final(self).state().wf(),
            ({
                let o = old(self).state();
                let n = final(self).state();
                let expected = if cmd@ == "plugin.activate"@ {
                    PluginState::Verified
                } else {
                    PluginState::Active
                };
                let target = if cmd@ == "plugin.activate"@ {
                    PluginState::Active
                } else {
                    PluginState::Stopped
                };
                &&& others_unchanged(o, n, false, true, false)
                &&& lifecycle_recorded(o, n, r is Ok, plugin_command_event(cmd@), id@)
                &&& if o.plugin_manager().plugins().contains_key(id@) && o.plugin_manager().plugins()[id@].state == expected {
                    &&& ok_answer(r, "plugin "@ + id@ + " transition complete"@)
                    &&& n.plugin_manager().plugins() == o.plugin_manager().plugins().insert(
                        id@,
                        PluginView { state: target, ..o.plugin_manager().plugins()[id@] },
                    )
                } else {
                    decode_failure(r) && n.plugin_manager().plugins() == o.plugin_manager().plugins()
                }
            }),
    {
        proof {
            lemma_commands_distinct();
        }
        let res = if str_eq(cmd, "plugin.activate") {
            self.nexora.activate_plugin(id.as_str())
        } else {
            self.nexora.stop_plugin(id.as_str())
        };
        match res {
            Ok(()) => {
                let mut message = "plugin ".to_owned();
                push_str(&mut message, id.as_str());
                push_str(&mut message, " transition complete");
                Ok(ExecuteCommandResponse { ok: true, message, data: None })
            },
            Err(e) => {
                let message = e.to_string();
                Err(HandlerError { scope: ErrorScope::Protocol, code: ErrorCode::DecodeFailed, message })
            },
        }
    }

    fn cmd_principal_register(&mut self, id: String, args: &ExecuteCommandArgs) -> (r: Result<
        ExecuteCommandResponse,
        HandlerError,
    >)
        requires
            old(self).state().wf(),
        ensures
            final(self).state().wf(),
            ({
                let o = old(self).state();
                let n = final(self).state();
                &&& ok_answer(r, "principal "@ + id@ + " registered"@)
                &&& others_unchanged(o, n, false, false, true)
                &&& n.permissions.principals() == o.permissions.principals().insert(
                    id@,
                    PrincipalView {
                        id: id@,
                        name: field_or(*args, "name"@, id@),
                        kind: kind_of(lookup(args.fields@, "kind"@)),
                        roles: list_or_empty(*args, "roles"@),
                    },
                )
            }),
    {
        proof {
            lemma_commands_distinct();
        }
        let kind = match args.get_string("kind") {
            Some(k) => {
                if str_eq(k.as_str(), "service") {
                    PrincipalKind::Service
                } else if str_eq(k.as_str(), "plugin") {
                    PrincipalKind::Plugin
                } else if str_eq(k.as_str(), "ai_agent") {
                    PrincipalKind::AiAgent
                } else {
                    PrincipalKind::User
                }
            },
            None => PrincipalKind::User,
        };
        let name = Self::text_arg(args, "name", id.as_str());
        let roles = Self::list_arg(args, "roles");
        let mut message = "principal ".to_owned();
        push_str(&mut message, id.as_str());
        push_str(&mut message, " registered");
        let principal = Principal { id, name, kind, roles };
        self.nexora.permissions.register_principal(principal);
        Ok(ExecuteCommandResponse { ok: true, message, data: None })
    }
}

} // verus!
