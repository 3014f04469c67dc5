//! The plugin manager: registered plugins and their lifecycle.
//!
//! ```text
//! register -> Pending --verify--> Verified --activate--> Active --stop--> Stopped
//! any      --remove--> Removed
//! ```
//!
//! A registered plugin carries the integrity hash of its manifest: the
//! SHA-256 digest, in lower-case hexadecimal, of the manifest's canonical
//! encoding with the signature left empty. Every change is published on
//! the attached event bus.

use vstd::prelude::*;
use crate::auth::sso::codec::hex_lower;
use crate::auth::webauthn::{hash_data, sha256};
use crate::platform::events::{bus_wf, emit_on, emitted, EventBus};
use crate::table::{Record, Table, models};
use crate::text::{copy_strings, push_str};

verus! {

/// Unique plugin id.
pub type PluginId = String;

/// Lifecycle state of a plugin.
#[derive(Clone, Copy, Debug, PartialEq, Eq, Hash, Structural)]
pub enum PluginState {
    /// Registered, not yet verified.
    Pending,
    /// Verified, ready to activate.
    Verified,
    /// Running.
    Active,
    /// Stopped.
    Stopped,
    /// Failed verification or at run time.
    Failed,
    /// Removed.
    Removed,
}

/// The name of a plugin state.
pub open spec fn plugin_state_name(s: PluginState) -> Seq<char> {
    match s {
        PluginState::Pending => "pending"@,
        PluginState::Verified => "verified"@,
        PluginState::Active => "active"@,
        PluginState::Stopped => "stopped"@,
        PluginState::Failed => "failed"@,
        PluginState::Removed => "removed"@,
    }
}

impl PluginState {
    /// The state's name (what `Display` prints).
    pub fn to_string(&self) -> (s: String)
        ensures
            s@ == plugin_state_name(*self),
    {
        match self {
            PluginState::Pending => "pending".to_owned(),
            PluginState::Verified => "verified".to_owned(),
            PluginState::Active => "active".to_owned(),
            PluginState::Stopped => "stopped".to_owned(),
            PluginState::Failed => "failed".to_owned(),
            PluginState::Removed => "removed".to_owned(),
        }
    }
}

/// Resource limits of a plugin.
#[derive(Clone, Copy, Debug, PartialEq, Eq, Structural)]
pub struct PluginResourceLimits {
    /// Maximum CPU percent.
    pub max_cpu_percent: u32,
    /// Maximum memory in MB.
    pub max_memory_mb: u32,
    /// Maximum commands per second.
    pub max_commands_per_sec: u32,
    /// Maximum duration of one command, in milliseconds.
    pub max_command_duration_ms: u32,
}

impl Default for PluginResourceLimits {
    fn default() -> (l: PluginResourceLimits)
        ensures
            l == (PluginResourceLimits {
                max_cpu_percent: 10,
                max_memory_mb: 64,
                max_commands_per_sec: 100,
                max_command_duration_ms: 1000,
            }),
    {
        PluginResourceLimits {
            max_cpu_percent: 10,
            max_memory_mb: 64,
            max_commands_per_sec: 100,
            max_command_duration_ms: 1000,
        }
    }
}

/// The manifest of a plugin.
#[derive(Debug)]
pub struct PluginManifest {
    /// Unique plugin id.
    pub id: PluginId,
    /// Name.
    pub name: String,
    /// Version.
    pub version: String,
    /// Owner.
    pub owner: String,
    /// Ed25519 public key of the signer (hex).
    pub signer_public_key: String,
    /// Declared capabilities.
    pub capabilities: Vec<String>,
    /// Resource limits.
    pub resource_limits: PluginResourceLimits,
    /// The module the plugin extends.
    pub extends_module: String,
    /// Ed25519 signature over the manifest (hex).
    pub signature: String,
}

/// A manifest as values.
pub struct ManifestView {
    pub id: Seq<char>,
    pub name: Seq<char>,
    pub version: Seq<char>,
    pub owner: Seq<char>,
    pub signer_public_key: Seq<char>,
    pub capabilities: Seq<String>,
    pub resource_limits: PluginResourceLimits,
    pub extends_module: Seq<char>,
    pub signature: Seq<char>,
}

impl View for PluginManifest {
    type V = ManifestView;

    open spec fn view(&self) -> ManifestView {
        ManifestView {
            id: self.id@,
            name: self.name@,
            version: self.version@,
            owner: self.owner@,
            signer_public_key: self.signer_public_key@,
            capabilities: self.capabilities@,
            resource_limits: self.resource_limits,
            extends_module: self.extends_module@,
            signature: self.signature@,
        }
    }
}

impl PluginManifest {
    /// An independent copy.
    pub fn duplicate(&self) -> (m: PluginManifest)
        ensures
            m@ == self@,
    {
        PluginManifest {
            id: self.id.clone(),
            name: self.name.clone(),
            version: self.version.clone(),
            owner: self.owner.clone(),
            signer_public_key: self.signer_public_key.clone(),
            capabilities: copy_strings(&self.capabilities),
            resource_limits: self.resource_limits,
            extends_module: self.extends_module.clone(),
            signature: self.signature.clone(),
        }
    }
}

/// A registered plugin.
#[derive(Debug)]
pub struct Plugin {
    /// Its manifest.
    pub manifest: PluginManifest,
    /// Its state.
    pub state: PluginState,
    /// Integrity hash of the manifest.
    pub integrity_hash: String,
    /// Registration time (unix nanoseconds).
    pub registered_at: i64,
    /// Commands executed.
    pub commands_executed: u64,
}

/// A plugin as values.
pub struct PluginView {
    pub manifest: ManifestView,
    pub state: PluginState,
    pub integrity_hash: Seq<char>,
    pub registered_at: i64,
    pub commands_executed: u64,
}

impl View for Plugin {
    type V = PluginView;

    open spec fn view(&self) -> PluginView {
        PluginView {
            manifest: self.manifest@,
            state: self.state,
            integrity_hash: self.integrity_hash@,
            registered_at: self.registered_at,
            commands_executed: self.commands_executed,
        }
    }
}

impl Record for Plugin {
    type Model = PluginView;

    open spec fn model(&self) -> PluginView {
        self@
    }

    open spec fn model_key(m: PluginView) -> Seq<char> {
        m.manifest.id
    }

    fn key(&self) -> (k: &str) {
        self.manifest.id.as_str()
    }

    fn copy(&self) -> (r: Plugin) {
        Plugin {
            manifest: self.manifest.duplicate(),
            state: self.state,
            integrity_hash: self.integrity_hash.clone(),
            registered_at: self.registered_at,
            commands_executed: self.commands_executed,
        }
    }
}

/// Error of a plugin operation.
#[derive(Debug)]
pub enum PluginError {
    /// No plugin has this id.
    NotFound(PluginId),
    /// The id is already registered.
    AlreadyExists(PluginId),
    /// The signature did not verify.
    SignatureFailed(PluginId),
    /// The plugin is not in the state the operation needs.
    WrongState {
        /// Plugin id.
        id: PluginId,
        /// Its state.
        state: PluginState,
        /// The state needed.
        expected: PluginState,
    },
}

impl PluginError {
    /// The error message.
    pub fn to_string(&self) -> (s: String)
        ensures
            s@ == match self {
                PluginError::NotFound(id) => "plugin not found: "@ + id@,
                PluginError::AlreadyExists(id) => "plugin already registered: "@ + id@,
                PluginError::SignatureFailed(id) => "signature verification failed for plugin "@ + id@,
                PluginError::WrongState { id, state, expected } => "plugin "@ + id@ + " in state "@
                    + plugin_state_name(*state) + ", expected "@ + plugin_state_name(*expected),
            },
    {
        match self {
            PluginError::NotFound(id) => {
                let mut s = "plugin not found: ".to_owned();
                push_str(&mut s, id.as_str());
                s
            },
            PluginError::AlreadyExists(id) => {
                let mut s = "plugin already registered: ".to_owned();
                push_str(&mut s, id.as_str());
                s
            },
            PluginError::SignatureFailed(id) => {
                let mut s = "signature verification failed for plugin ".to_owned();
                push_str(&mut s, id.as_str());
                s
            },
            PluginError::WrongState { id, state, expected } => {
                let mut s = "plugin ".to_owned();
                push_str(&mut s, id.as_str());
                push_str(&mut s, " in state ");
                let a = state.to_string();
                push_str(&mut s, a.as_str());
                push_str(&mut s, ", expected ");
                let b = expected.to_string();
                push_str(&mut s, b.as_str());
                s
            },
        }
    }
}

/// The integrity hash of a manifest from its canonical encoding: SHA-256
/// in lower-case hexadecimal.
pub open spec fn integrity_of(canonical: Seq<u8>) -> Seq<char> {
    hex_lower(sha256(canonical))
}

/// The integrity hash of a manifest, given its canonical encoding (with
/// the signature left empty).
pub fn compute_integrity_hash(canonical: &[u8]) -> (h: String)
    ensures
        h@ == integrity_of(canonical@),
        h@.len() == 64,
{
    hash_data(canonical)
}

/// The name of the event published when a plugin enters `target` by a
/// transition.
pub open spec fn transition_event(target: PluginState) -> Seq<char> {
    match target {
        PluginState::Verified => "plugin.verified"@,
        PluginState::Active => "plugin.activated"@,
        PluginState::Stopped => "plugin.stopped"@,
        _ => "plugin.transition"@,
    }
}

/// The plugin manager.
#[derive(Debug)]
pub struct PluginManager {
    plugins: Table<Plugin>,
    event_bus: Option<EventBus>,
}

impl Default for PluginManager {
    fn default() -> (m: PluginManager)
        ensures
            m.wf(),
            m.plugins() == Map::<Seq<char>, PluginView>::empty(),
            m.event_bus() is None,
    {
        PluginManager::new()
    }
}

impl PluginManager {
    /// The plugins by id.
    pub closed spec fn plugins(&self) -> Map<Seq<char>, PluginView> {
        self.plugins.map()
    }

    /// The plugins in registration order.
    pub closed spec fn plugin_seq(&self) -> Seq<PluginView> {
        self.plugins.seq()
    }

    /// The attached event bus.
    pub closed spec fn event_bus(&self) -> Option<EventBus> {
        self.event_bus
    }

    /// Well-formedness: ids are distinct, the bus is well formed.
    pub closed spec fn wf(&self) -> bool {
        self.plugins.wf() && bus_wf(self.event_bus)
    }

    /// An empty manager without event bus.
    pub fn new() -> (m: PluginManager)
        ensures
            m.wf(),
            m.plugins() == Map::<Seq<char>, PluginView>::empty(),
            m.event_bus() is None,
    {
        PluginManager { plugins: Table::new(), event_bus: None }
    }

    /// Attach an event bus: changes are published on it.
    pub fn with_event_bus(self, bus: EventBus) -> (m: PluginManager)
        requires
            self.wf(),
            bus.wf(),
        ensures
            m.wf(),
            m.plugins() == self.plugins(),
            m.event_bus() == Some(bus),
    {
        PluginManager { plugins: self.plugins, event_bus: Some(bus) }
    }

    /// Put `bus` in place of the attached event bus (none for `None`);
    /// the bus attached before is returned. The plugins do not change.
    pub fn replace_event_bus(&mut self, bus: Option<EventBus>) -> (prev: Option<EventBus>)
        requires
            old(self).wf(),
            bus_wf(bus),
        ensures
            final(self).wf(),
            final(self).plugins() == old(self).plugins(),
            final(self).plugin_seq() == old(self).plugin_seq(),
            final(self).event_bus() == bus,
            prev == old(self).event_bus(),
            bus_wf(prev),
    {
        let mut b = bus;
        std::mem::swap(&mut b, &mut self.event_bus);
        b
    }

    /// The attached event bus.
    pub fn events(&self) -> (b: Option<&EventBus>)
        ensures
            match b {
                Some(b) => self.event_bus() == Some(*b),
                None => self.event_bus() is None,
            },
    {
        match &self.event_bus {
            Some(b) => Some(b),
            None => None,
        }
    }

    /// Number of plugins.
    pub fn plugin_count(&self) -> (n: usize)
        requires
            self.wf(),
        ensures
            n == self.plugins().len(),
    {
        self.plugins.len()
    }

    /// Register a plugin in `Pending`, with the integrity hash of its
    /// canonical encoding; refused when the id is taken.
    pub fn register(&mut self, manifest: PluginManifest, canonical: &[u8]) -> (r: Result<(), PluginError>)
        requires
            old(self).wf(),
        ensures
            final(self).wf(),
            match r {
                Ok(()) => {
                    &&& !old(self).plugins().contains_key(manifest.id@)
                    &&& final(self).plugins() == old(self).plugins().insert(
                        manifest.id@,
                        PluginView {
                            manifest: manifest@,
                            state: PluginState::Pending,
                            integrity_hash: integrity_of(canonical@),
                            registered_at: 0,
                            commands_executed: 0,
                        },
                    )
                    &&& emitted(old(self).event_bus(), final(self).event_bus(), "plugin.registered"@, manifest.id@)
                },
                Err(e) => {
                    &&& e matches PluginError::AlreadyExists(id) && id@ == manifest.id@
                    &&& old(self).plugins().contains_key(manifest.id@)
                    &&& final(self).plugins() == old(self).plugins()
                    &&& final(self).event_bus() == old(self).event_bus()
                },
            },
    {
        if self.plugins.find(manifest.id.as_str()).is_some() {
            return Err(PluginError::AlreadyExists(manifest.id.clone()));
        }
        let integrity_hash = compute_integrity_hash(canonical);
        let id = manifest.id.clone();
        self.plugins.upsert(
            Plugin { manifest, state: PluginState::Pending, integrity_hash, registered_at: 0, commands_executed: 0 },
        );
        emit_on(&mut self.event_bus, "plugin.registered", id.as_str());
        Ok(())
    }

    fn transition(&mut self, id: &str, target: PluginState, expected: PluginState) -> (r: Result<(), PluginError>)
        requires
            old(self).wf(),
        ensures
            final(self).wf(),
            match r {
                Ok(()) => {
                    &&& old(self).plugins().contains_key(id@)
                    &&& old(self).plugins()[id@].state == expected
                    &&& final(self).plugins() == old(self).plugins().insert(
                        id@,
                        PluginView { state: target, ..old(self).plugins()[id@] },
                    )
                    &&& emitted(old(self).event_bus(), final(self).event_bus(), transition_event(target), id@)
                },
                Err(PluginError::NotFound(n)) => n@ == id@ && !old(self).plugins().contains_key(id@)
                    && final(self).plugins() == old(self).plugins() && final(self).event_bus() == old(self).event_bus(),
                Err(PluginError::WrongState { id: n, state, expected: e }) => {
                    &&& n@ == id@ && e == expected
                    &&& old(self).plugins().contains_key(id@)
                    &&& state == old(self).plugins()[id@].state && state != expected
                    &&& final(self).plugins() == old(self).plugins()
                    &&& final(self).event_bus() == old(self).event_bus()
                },
                Err(_) => false,
            },
    {
        let i = match self.plugins.find(id) {
            Some(i) => i,
            None => {
                return Err(PluginError::NotFound(id.to_owned()));
            },
        };
        let mut p = self.plugins.at(i).copy();
        if p.state != expected {
            return Err(PluginError::WrongState { id: id.to_owned(), state: p.state, expected });
        }
        p.state = target;
        self.plugins.set_at(i, p);
        let name = match target {
            PluginState::Verified => "plugin.verified",
            PluginState::Active => "plugin.activated",
            PluginState::Stopped => "plugin.stopped",
            _ => "plugin.transition",
        };
        emit_on(&mut self.event_bus, name, id);
        Ok(())
    }

    /// Verify a pending plugin.
    pub fn verify(&mut self, id: &str) -> (r: Result<(), PluginError>)
        requires
            old(self).wf(),
        ensures
            final(self).wf(),
            r is Err ==> final(self).event_bus() == old(self).event_bus(),
            match r {
                Ok(()) => {
                    &&& old(self).plugins().contains_key(id@)
                    &&& old(self).plugins()[id@].state == PluginState::Pending
                    &&& final(self).plugins() == old(self).plugins().insert(
                        id@,
                        PluginView { state: PluginState::Verified, ..old(self).plugins()[id@] },
                    )
                    &&& emitted(old(self).event_bus(), final(self).event_bus(), "plugin.verified"@, id@)
                },
                Err(PluginError::NotFound(n)) => n@ == id@ && !old(self).plugins().contains_key(id@)
                    && final(self).plugins() == old(self).plugins(),
                Err(PluginError::WrongState { id: n, state, expected }) => n@ == id@ && expected
                    == PluginState::Pending && old(self).plugins().contains_key(id@) && state == old(
                    self,
                ).plugins()[id@].state && state != PluginState::Pending && final(self).plugins() == old(
                    self,
                ).plugins(),
                Err(_) => false,
            },
    {
        self.transition(id, PluginState::Verified, PluginState::Pending)
    }

    /// Activate a verified plugin.
    pub fn activate(&mut self, id: &str) -> (r: Result<(), PluginError>)
        requires
            old(self).wf(),
        ensures
            final(self).wf(),
            r is Err ==> final(self).event_bus() == old(self).event_bus(),
            match r {
                Ok(()) => {
                    &&& old(self).plugins().contains_key(id@)
                    &&& old(self).plugins()[id@].state == PluginState::Verified
                    &&& final(self).plugins() == old(self).plugins().insert(
                        id@,
                        PluginView { state: PluginState::Active, ..old(self).plugins()[id@] },
                    )
                    &&& emitted(old(self).event_bus(), final(self).event_bus(), "plugin.activated"@, id@)
                },
                Err(PluginError::NotFound(n)) => n@ == id@ && !old(self).plugins().contains_key(id@)
                    && final(self).plugins() == old(self).plugins(),
                Err(PluginError::WrongState { id: n, state, expected }) => n@ == id@ && expected
                    == PluginState::Verified && old(self).plugins().contains_key(id@) && state == old(
                    self,
                ).plugins()[id@].state && state != PluginState::Verified && final(self).plugins() == old(
                    self,
                ).plugins(),
                Err(_) => false,
            },
    {
        self.transition(id, PluginState::Active, PluginState::Verified)
    }

    /// Stop an active plugin.
    pub fn stop(&mut self, id: &str) -> (r: Result<(), PluginError>)
        requires
            old(self).wf(),
        ensures
            final(self).wf(),
            r is Err ==> final(self).event_bus() == old(self).event_bus(),
            match r {
                Ok(()) => {
                    &&& old(self).plugins().contains_key(id@)
                    &&& old(self).plugins()[id@].state == PluginState::Active
                    &&& final(self).plugins() == old(self).plugins().insert(
                        id@,
                        PluginView { state: PluginState::Stopped, ..old(self).plugins()[id@] },
                    )
                    &&& emitted(old(self).event_bus(), final(self).event_bus(), "plugin.stopped"@, id@)
                },
                Err(PluginError::NotFound(n)) => n@ == id@ && !old(self).plugins().contains_key(id@)
                    && final(self).plugins() == old(self).plugins(),
                Err(PluginError::WrongState { id: n, state, expected }) => n@ == id@ && expected
                    == PluginState::Active && old(self).plugins().contains_key(id@) && state == old(
                    self,
                ).plugins()[id@].state && state != PluginState::Active && final(self).plugins() == old(
                    self,
                ).plugins(),
                Err(_) => false,
            },
    {
        self.transition(id, PluginState::Stopped, PluginState::Active)
    }

    /// Mark a plugin removed, whatever its state.
    pub fn remove(&mut self, id: &str) -> (r: Result<(), PluginError>)
        requires
            old(self).wf(),
        ensures
            final(self).wf(),
            match r {
                Ok(()) => {
                    &&& old(self).plugins().contains_key(id@)
                    &&& final(self).plugins() == old(self).plugins().insert(
                        id@,
                        PluginView { state: PluginState::Removed, ..old(self).plugins()[id@] },
                    )
                    &&& emitted(old(self).event_bus(), final(self).event_bus(), "plugin.removed"@, id@)
                },
                Err(e) => e matches PluginError::NotFound(n) && n@ == id@ && !old(self).plugins().contains_key(id@)
                    && final(self).plugins() == old(self).plugins() && final(self).event_bus() == old(
                    self,
                ).event_bus(),
            },
    {
        let i = match self.plugins.find(id) {
            Some(i) => i,
            None => {
                return Err(PluginError::NotFound(id.to_owned()));
            },
        };
        let mut p = self.plugins.at(i).copy();
        p.state = PluginState::Removed;
        self.plugins.set_at(i, p);
        emit_on(&mut self.event_bus, "plugin.removed", id);
        Ok(())
    }

    /// Count a command executed by an active plugin (the count stops at
    /// `u64::MAX`).
    pub fn record_command(&mut self, id: &str) -> (r: Result<(), PluginError>)
        requires
            old(self).wf(),
        ensures
            final(self).wf(),
            final(self).event_bus() == old(self).event_bus(),
            match r {
                Ok(()) => {
                    &&& old(self).plugins().contains_key(id@)
                    &&& old(self).plugins()[id@].state == PluginState::Active
                    &&& final(self).plugins() == old(self).plugins().insert(
                        id@,
                        PluginView {
                            commands_executed: if old(self).plugins()[id@].commands_executed < u64::MAX {
                                (old(self).plugins()[id@].commands_executed + 1) as u64
                            } else {
                                u64::MAX
                            },
                            ..old(self).plugins()[id@]
                        },
                    )
                },
                Err(PluginError::NotFound(n)) => n@ == id@ && !old(self).plugins().contains_key(id@)
                    && final(self).plugins() == old(self).plugins(),
                Err(PluginError::WrongState { id: n, state, expected }) => n@ == id@ && expected
                    == PluginState::Active && old(self).plugins().contains_key(id@) && state == old(
                    self,
                ).plugins()[id@].state && state != PluginState::Active && final(self).plugins() == old(
                    self,
                ).plugins(),
                Err(_) => false,
            },
    {
        let i = match self.plugins.find(id) {
            Some(i) => i,
            None => {
                return Err(PluginError::NotFound(id.to_owned()));
            },
        };
        let mut p = self.plugins.at(i).copy();
        if p.state != PluginState::Active {
            return Err(PluginError::WrongState { id: id.to_owned(), state: p.state, expected: PluginState::Active });
        }
        p.commands_executed = p.commands_executed.saturating_add(1);
        self.plugins.set_at(i, p);
        Ok(())
    }

    /// A copy of a plugin.
    pub fn get(&self, id: &str) -> (r: Option<Plugin>)
        requires
            self.wf(),
        ensures
            match r {
                Some(p) => self.plugins().contains_key(id@) && p@ == self.plugins()[id@],
                None => !self.plugins().contains_key(id@),
            },
    {
        self.plugins.get(id)
    }

    /// Copies of all plugins, in registration order.
    pub fn list(&self) -> (r: Vec<Plugin>)
        ensures
            models(r@) == self.plugin_seq(),
    {
        self.plugins.all()
    }
}

} // verus!
