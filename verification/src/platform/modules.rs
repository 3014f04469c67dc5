//! The module manager: installs modules and drives their lifecycle.
//!
//! ```text
//! install            -> Installed
//! Installed --enable--> Enabled
//! Enabled   --pause --> Paused
//! Paused    --resume--> Enabled
//! Enabled/Paused --disable--> Installed
//! not Enabled --uninstall--> Removed
//! ```
//!
//! Every successful change is counted on the module and published on the
//! attached event bus.

use vstd::prelude::*;
use crate::keyed::{keyed_map, keys_distinct, lemma_keyed_map_contents, lemma_keyed_map_push, lemma_keyed_map_update};
use crate::platform::events::{bus_wf, emitted, EventBus};
use crate::sys::now_unix_nanos;
use crate::text::{copy_strings, push_str, str_eq};

verus! {

/// Stable identifier of a module.
pub type ModuleId = String;

/// Lifecycle state of a module.
#[derive(Clone, Copy, Debug, PartialEq, Eq, Hash, Structural)]
pub enum ModuleState {
    /// Installed, not serving.
    Installed,
    /// Active and serving traffic.
    Enabled,
    /// Temporarily not serving; can be resumed.
    Paused,
    /// Marked for removal.
    Removed,
}

impl ModuleState {
    /// The state's name (what `Display` prints).
    pub fn to_string(&self) -> (s: String)
        ensures
            s@ == module_state_name(*self),
    {
        match self {
            ModuleState::Installed => "installed".to_owned(),
            ModuleState::Enabled => "enabled".to_owned(),
            ModuleState::Paused => "paused".to_owned(),
            ModuleState::Removed => "removed".to_owned(),
        }
    }
}

/// The name of a state.
pub open spec fn module_state_name(s: ModuleState) -> Seq<char> {
    match s {
        ModuleState::Installed => "installed"@,
        ModuleState::Enabled => "enabled"@,
        ModuleState::Paused => "paused"@,
        ModuleState::Removed => "removed"@,
    }
}

/// Resource budget of a module.
#[derive(Clone, Copy, Debug, PartialEq, Eq, Structural)]
pub struct ResourceBudget {
    /// Max CPU percent (0-100 per core).
    pub max_cpu_percent: u32,
    /// Max memory in MB.
    pub max_memory_mb: u32,
    /// Max concurrent NXP streams.
    pub max_streams: u32,
}

impl Default for ResourceBudget {
    /// 25 % CPU, 256 MB, 64 streams.
    fn default() -> (b: ResourceBudget)
        ensures
            b == (ResourceBudget { max_cpu_percent: 25, max_memory_mb: 256, max_streams: 64 }),
    {
        ResourceBudget { max_cpu_percent: 25, max_memory_mb: 256, max_streams: 64 }
    }
}

/// A registered module.
#[derive(Debug)]
pub struct Module {
    /// Unique id (e.g. `auth`).
    pub id: ModuleId,
    /// Human-readable name.
    pub name: String,
    /// Semantic version.
    pub version: String,
    /// Lifecycle state.
    pub state: ModuleState,
    /// Owner (organisation or user).
    pub owner: String,
    /// Declared capabilities.
    pub capabilities: Vec<String>,
    /// Resource budget.
    pub resource_budget: ResourceBudget,
    /// Installation time (unix nanoseconds).
    pub installed_at: i64,
    /// Time of the last state change (unix nanoseconds).
    pub last_transition: i64,
    /// Number of state changes.
    pub transition_count: u64,
}

/// A module as values.
pub struct ModuleView {
    pub id: Seq<char>,
    pub name: Seq<char>,
    pub version: Seq<char>,
    pub state: ModuleState,
    pub owner: Seq<char>,
    pub capabilities: Seq<String>,
    pub resource_budget: ResourceBudget,
    pub installed_at: i64,
    pub last_transition: i64,
    pub transition_count: u64,
}

impl View for Module {
    type V = ModuleView;

    open spec fn view(&self) -> ModuleView {
        ModuleView {
            id: self.id@,
            name: self.name@,
            version: self.version@,
            state: self.state,
            owner: self.owner@,
            capabilities: self.capabilities@,
            resource_budget: self.resource_budget,
            installed_at: self.installed_at,
            last_transition: self.last_transition,
            transition_count: self.transition_count,
        }
    }
}

impl Module {
    /// An independent copy.
    pub fn duplicate(&self) -> (m: Module)
        ensures
            m@ == self@,
    {
        Module {
            id: self.id.clone(),
            name: self.name.clone(),
            version: self.version.clone(),
            state: self.state,
            owner: self.owner.clone(),
            capabilities: copy_strings(&self.capabilities),
            resource_budget: self.resource_budget,
            installed_at: self.installed_at,
            last_transition: self.last_transition,
            transition_count: self.transition_count,
        }
    }
}

/// Error of a module operation.
#[derive(Debug)]
pub enum ModuleError {
    /// No module has this id.
    NotFound(ModuleId),
    /// A module with this id is already installed.
    AlreadyExists(ModuleId),
    /// The lifecycle does not allow this change.
    InvalidTransition {
        /// Module id.
        id: ModuleId,
        /// Current state.
        from: ModuleState,
        /// Requested state.
        to: ModuleState,
    },
    /// The module is in the wrong state for the operation.
    WrongState {
        /// Module id.
        id: ModuleId,
        /// Current state.
        state: ModuleState,
        /// Expected state.
        expected: ModuleState,
    },
}

impl ModuleError {
    /// The error message.
    pub fn to_string(&self) -> (s: String)
        ensures
            s@ == match self {
                ModuleError::NotFound(id) => "module not found: "@ + id@,
                ModuleError::AlreadyExists(id) => "module already exists: "@ + id@,
                ModuleError::InvalidTransition { id, from, to } => "invalid state transition: "@
                    + module_state_name(*from) + " -> "@ + module_state_name(*to) + " for module "@ + id@,
                ModuleError::WrongState { id, state, expected } => "module "@ + id@ + " is in state "@
                    + module_state_name(*state) + ", expected "@ + module_state_name(*expected),
            },
    {
        match self {
            ModuleError::NotFound(id) => {
                let mut s = "module not found: ".to_owned();
                push_str(&mut s, id.as_str());
                s
            },
            ModuleError::AlreadyExists(id) => {
                let mut s = "module already exists: ".to_owned();
                push_str(&mut s, id.as_str());
                s
            },
            ModuleError::InvalidTransition { id, from, to } => {
                let mut s = "invalid state transition: ".to_owned();
                let a = from.to_string();
                push_str(&mut s, a.as_str());
                push_str(&mut s, " -> ");
                let b = to.to_string();
                push_str(&mut s, b.as_str());
                push_str(&mut s, " for module ");
                push_str(&mut s, id.as_str());
                s
            },
            ModuleError::WrongState { id, state, expected } => {
                let mut s = "module ".to_owned();
                push_str(&mut s, id.as_str());
                push_str(&mut s, " is in state ");
                let a = state.to_string();
                push_str(&mut s, a.as_str());
                push_str(&mut s, ", expected ");
                let b = expected.to_string();
                push_str(&mut s, b.as_str());
                s
            },
        }
    }
}

/// The lifecycle graph.
pub open spec fn valid_transition(from: ModuleState, to: ModuleState) -> bool {
    match (from, to) {
        (ModuleState::Installed, ModuleState::Enabled) => true,
        (ModuleState::Enabled, ModuleState::Paused) => true,
        (ModuleState::Paused, ModuleState::Enabled) => true,
        (ModuleState::Enabled, ModuleState::Installed) => true,
        (ModuleState::Paused, ModuleState::Installed) => true,
        _ => false,
    }
}

/// Whether the lifecycle allows going from `from` to `to`.
pub fn is_valid_transition(from: ModuleState, to: ModuleState) -> (b: bool)
    ensures
        b == valid_transition(from, to),
{
    match (from, to) {
        (ModuleState::Installed, ModuleState::Enabled) => true,
        (ModuleState::Enabled, ModuleState::Paused) => true,
        (ModuleState::Paused, ModuleState::Enabled) => true,
        (ModuleState::Enabled, ModuleState::Installed) => true,
        (ModuleState::Paused, ModuleState::Installed) => true,
        _ => false,
    }
}

/// The key of a module view.
pub open spec fn module_key() -> spec_fn(ModuleView) -> Seq<char> {
    |m: ModuleView| m.id
}

/// `m` after a state change to `state` at an unspecified time.
pub open spec fn changed_state(old_m: ModuleView, new_m: ModuleView, state: ModuleState) -> bool {
    &&& new_m.id == old_m.id
    &&& new_m.name == old_m.name
    &&& new_m.version == old_m.version
    &&& new_m.state == state
    &&& new_m.owner == old_m.owner
    &&& new_m.capabilities == old_m.capabilities
    &&& new_m.resource_budget == old_m.resource_budget
    &&& new_m.installed_at == old_m.installed_at
    &&& new_m.transition_count == old_m.transition_count + 1
}

/// The event a transition to `target` publishes.
pub open spec fn module_event(target: ModuleState) -> Seq<char> {
    match target {
        ModuleState::Enabled => "module.enabled"@,
        ModuleState::Paused => "module.paused"@,
        _ => "module.transition"@,
    }
}

/// The module manager.
#[derive(Debug)]
pub struct ModuleManager {
    modules: Vec<Module>,
    event_bus: Option<EventBus>,
}

impl Default for ModuleManager {
    fn default() -> (m: ModuleManager)
        ensures
            m.wf(),
            m.modules() == Map::<Seq<char>, ModuleView>::empty(),
            m.event_bus() is None,
    {
        ModuleManager::new()
    }
}

impl ModuleManager {
    /// The modules in installation order.
    pub closed spec fn module_seq(&self) -> Seq<ModuleView> {
        self.modules@.map_values(|m: Module| m@)
    }

    /// The modules by id.
    pub closed spec fn modules(&self) -> Map<Seq<char>, ModuleView> {
        keyed_map(self.modules@.map_values(|m: Module| m@), module_key())
    }

    /// The attached event bus.
    pub closed spec fn event_bus(&self) -> Option<EventBus> {
        self.event_bus
    }

    /// Well-formedness: ids are distinct and the event bus is well formed.
    pub closed spec fn wf(&self) -> bool {
        &&& keys_distinct(self.modules@.map_values(|m: Module| m@), module_key())
        &&& (self.event_bus matches Some(b) ==> b.wf())
    }

    /// An empty manager without event bus.
    pub fn new() -> (m: ModuleManager)
        ensures
            m.wf(),
            m.modules() == Map::<Seq<char>, ModuleView>::empty(),
            m.event_bus() is None,
    {
        let m = ModuleManager { modules: Vec::new(), event_bus: None };
        assert(m.modules@.map_values(|m: Module| m@) =~= Seq::<ModuleView>::empty());
        m
    }

    /// Attach an event bus: lifecycle changes are published on it.
    pub fn with_event_bus(self, bus: EventBus) -> (m: ModuleManager)
        requires
            self.wf(),
            bus.wf(),
        ensures
            m.wf(),
            m.modules() == self.modules(),
            m.event_bus() == Some(bus),
    {
        ModuleManager { modules: self.modules, event_bus: Some(bus) }
    }

    /// Put `bus` in place of the attached event bus (none for `None`);
    /// the bus attached before is returned. The modules do not change.
    pub fn replace_event_bus(&mut self, bus: Option<EventBus>) -> (prev: Option<EventBus>)
        requires
            old(self).wf(),
            bus_wf(bus),
        ensures
            final(self).wf(),
            final(self).modules() == old(self).modules(),
            final(self).module_seq() == old(self).module_seq(),
            final(self).event_bus() == bus,
            prev == old(self).event_bus(),
            bus_wf(prev),
    {
        let mut b = bus;
        std::mem::swap(&mut b, &mut self.event_bus);
        b
    }

    /// The attached event bus.
    pub fn events(&self) -> (b: Option<&EventBus>)
        ensures
            match b {
                Some(b) => self.event_bus() == Some(*b),
                None => self.event_bus() is None,
            },
    {
        match &self.event_bus {
            Some(b) => Some(b),
            None => None,
        }
    }

    /// Number of modules.
    pub fn module_count(&self) -> (n: usize)
        requires
            self.wf(),
        ensures
            n == self.modules().len(),
    {
        proof {
            lemma_keyed_map_contents(self.modules@.map_values(|m: Module| m@), module_key());
        }
        self.modules.len()
    }

    fn find(&self, id: &str) -> (r: Option<usize>)
        requires
            self.wf(),
        ensures
            match r {
                Some(i) => i < self.modules@.len() && self.modules@[i as int].id@ == id@
                    && self.modules().contains_key(id@) && self.modules()[id@] == self.modules@[i as int]@,
                None => !self.modules().contains_key(id@),
            },
    {
        let ghost vs = self.modules@.map_values(|m: Module| m@);
        proof {
            lemma_keyed_map_contents(vs, module_key());
        }
        let mut i: usize = 0;
        while i < self.modules.len()
            invariant
                i <= self.modules@.len(),
                vs == self.modules@.map_values(|m: Module| m@),
                keys_distinct(vs, module_key()),
                forall|j: int| 0 <= j < i ==> self.modules@[j].id@ != id@,
            decreases self.modules@.len() - i,
        {
            if str_eq(self.modules[i].id.as_str(), id) {
                assert(vs[i as int] == self.modules@[i as int]@);
                assert(module_key()(vs[i as int]) == id@);
                proof {
                    lemma_keyed_map_contents(vs, module_key());
                }
                return Some(i);
            }
            i = i + 1;
        }
        proof {
            if self.modules().contains_key(id@) {
                let j = choose|j: int| 0 <= j < vs.len() && module_key()(vs[j]) == id@;
                assert(vs[j] == self.modules@[j]@);
            }
        }
        None
    }

    fn emit_event(&mut self, name: &str, module_id: &str)
        requires
            old(self).wf(),
        ensures
            final(self).wf(),
            final(self).modules@ == old(self).modules@,
            final(self).event_bus is Some == old(self).event_bus is Some,
            emitted(old(self).event_bus(), final(self).event_bus(), name@, module_id@),
    {
        match &mut self.event_bus {
            Some(bus) => {
                if bus.published_count() < u64::MAX - 1 {
                    bus.publish(name, module_id);
                }
            },
            None => {},
        }
    }

    /// Install a module: it enters `Installed` with one recorded change.
    pub fn install(&mut self, module: Module) -> (r: Result<(), ModuleError>)
        requires
            old(self).wf(),
        ensures
            final(self).wf(),
            r is Ok ==> emitted(old(self).event_bus(), final(self).event_bus(), "module.installed"@, module.id@),
            r is Err ==> final(self).event_bus() == old(self).event_bus(),
            match r {
                Ok(()) => {
                    &&& !old(self).modules().contains_key(module.id@)
                    &&& final(self).modules().dom() == old(self).modules().dom().insert(module.id@)
                    &&& forall|k: Seq<char>| k != module.id@ && #[trigger] old(self).modules().contains_key(k)
                        ==> final(self).modules()[k] == old(self).modules()[k]
                    &&& {
                        let m = final(self).modules()[module.id@];
                        &&& m.id == module.id@ && m.name == module.name@ && m.version == module.version@
                        &&& m.owner == module.owner@ && m.capabilities == module.capabilities@
                        &&& m.resource_budget == module.resource_budget
                        &&& m.state == ModuleState::Installed
                        &&& m.transition_count == 1
                        &&& m.last_transition == m.installed_at
                    }
                },
                Err(ModuleError::AlreadyExists(id)) => old(self).modules().contains_key(module.id@)
                    && final(self).modules() == old(self).modules() && id@ == module.id@,
                Err(_) => false,
            },
    {
        if let Some(_) = self.find(module.id.as_str()) {
            return Err(ModuleError::AlreadyExists(module.id.clone()));
        }
        let now = now_unix_nanos();
        let mut module = module;
        module.state = ModuleState::Installed;
        module.installed_at = now;
        module.last_transition = now;
        module.transition_count = 1;
        let id = module.id.clone();
        let ghost prev = self.modules@.map_values(|m: Module| m@);
        let ghost mv = module@;
        proof {
            lemma_keyed_map_contents(prev, module_key());
            assert forall|i: int| 0 <= i < prev.len() implies module_key()(prev[i]) != module_key()(mv) by {
                if module_key()(prev[i]) == module_key()(mv) {
                    assert(old(self).modules().contains_key(mv.id));
                }
            }
            lemma_keyed_map_push(prev, module_key(), mv);
        }
        self.modules.push(module);
        assert(self.modules@.map_values(|m: Module| m@) =~= prev.push(mv));
        self.emit_event("module.installed", id.as_str());
        Ok(())
    }

    fn transition(&mut self, id: &str, target: ModuleState) -> (r: Result<(), ModuleError>)
        requires
            old(self).wf(),
            old(self).modules().contains_key(id@) ==> old(self).modules()[id@].transition_count < u64::MAX,
        ensures
            final(self).wf(),
            r is Ok ==> emitted(old(self).event_bus(), final(self).event_bus(), module_event(target), id@),
            r is Err ==> final(self).event_bus() == old(self).event_bus(),
            match r {
                Ok(()) => {
                    &&& old(self).modules().contains_key(id@)
                    &&& valid_transition(old(self).modules()[id@].state, target)
                    &&& final(self).modules().dom() == old(self).modules().dom()
                    &&& forall|k: Seq<char>| k != id@ && #[trigger] old(self).modules().contains_key(k)
                        ==> final(self).modules()[k] == old(self).modules()[k]
                    &&& changed_state(old(self).modules()[id@], final(self).modules()[id@], target)
                },
                Err(ModuleError::NotFound(e)) => !old(self).modules().contains_key(id@) && e@ == id@
                    && final(self).modules() == old(self).modules(),
                Err(ModuleError::InvalidTransition { id: e, from, to }) => old(self).modules().contains_key(id@)
                    && !valid_transition(old(self).modules()[id@].state, target) && e@ == id@ && from
                    == old(self).modules()[id@].state && to == target && final(self).modules() == old(
                    self,
                ).modules(),
                Err(_) => false,
            },
    {
        let i = match self.find(id) {
            Some(i) => i,
            None => {
                return Err(ModuleError::NotFound(id.to_owned()));
            },
        };
        let from = self.modules[i].state;
        if !is_valid_transition(from, target) {
            return Err(ModuleError::InvalidTransition { id: id.to_owned(), from, to: target });
        }
        let now = now_unix_nanos();
        let mut m = self.modules[i].duplicate();
        m.state = target;
        m.last_transition = now;
        m.transition_count = m.transition_count + 1;
        let ghost prev = self.modules@.map_values(|m: Module| m@);
        let ghost mv = m@;
        proof {
            lemma_keyed_map_update(prev, module_key(), i as int, mv);
            lemma_keyed_map_contents(prev, module_key());
        }
        self.modules.set(i, m);
        assert(self.modules@.map_values(|m: Module| m@) =~= prev.update(i as int, mv));
        let event_name = match target {
            ModuleState::Enabled => "module.enabled",
            ModuleState::Paused => "module.paused",
            _ => "module.transition",
        };
        self.emit_event(event_name, id);
        Ok(())
    }

    /// Enable an installed (or paused) module.
    pub fn enable(&mut self, id: &str) -> (r: Result<(), ModuleError>)
        requires
            old(self).wf(),
            old(self).modules().contains_key(id@) ==> old(self).modules()[id@].transition_count < u64::MAX,
        ensures
            final(self).wf(),
            r is Ok ==> emitted(old(self).event_bus(), final(self).event_bus(), "module.enabled"@, id@),
            r is Err ==> final(self).event_bus() == old(self).event_bus(),
            match r {
                Ok(()) => {
                    &&& old(self).modules().contains_key(id@)
                    &&& valid_transition(old(self).modules()[id@].state, ModuleState::Enabled)
                    &&& final(self).modules().dom() == old(self).modules().dom()
                    &&& forall|k: Seq<char>| k != id@ && #[trigger] old(self).modules().contains_key(k)
                        ==> final(self).modules()[k] == old(self).modules()[k]
                    &&& changed_state(old(self).modules()[id@], final(self).modules()[id@], ModuleState::Enabled)
                },
                Err(ModuleError::NotFound(e)) => !old(self).modules().contains_key(id@) && e@ == id@
                    && final(self).modules() == old(self).modules(),
                Err(ModuleError::InvalidTransition { id: e, from, to }) => old(self).modules().contains_key(id@)
                    && !valid_transition(old(self).modules()[id@].state, ModuleState::Enabled) && e@ == id@
                    && from == old(self).modules()[id@].state && to == ModuleState::Enabled
                    && final(self).modules() == old(self).modules(),
                Err(_) => false,
            },
    {
        self.transition(id, ModuleState::Enabled)
    }

    /// Pause an enabled module.
    pub fn pause(&mut self, id: &str) -> (r: Result<(), ModuleError>)
        requires
            old(self).wf(),
            old(self).modules().contains_key(id@) ==> old(self).modules()[id@].transition_count < u64::MAX,
        ensures
            final(self).wf(),
            r is Ok ==> emitted(old(self).event_bus(), final(self).event_bus(), "module.paused"@, id@),
            r is Err ==> final(self).event_bus() == old(self).event_bus(),
            match r {
                Ok(()) => {
                    &&& old(self).modules().contains_key(id@)
                    &&& valid_transition(old(self).modules()[id@].state, ModuleState::Paused)
                    &&& final(self).modules().dom() == old(self).modules().dom()
                    &&& forall|k: Seq<char>| k != id@ && #[trigger] old(self).modules().contains_key(k)
                        ==> final(self).modules()[k] == old(self).modules()[k]
                    &&& changed_state(old(self).modules()[id@], final(self).modules()[id@], ModuleState::Paused)
                },
                Err(ModuleError::NotFound(e)) => !old(self).modules().contains_key(id@) && e@ == id@
                    && final(self).modules() == old(self).modules(),
                Err(ModuleError::InvalidTransition { id: e, from, to }) => old(self).modules().contains_key(id@)
                    && !valid_transition(old(self).modules()[id@].state, ModuleState::Paused) && e@ == id@
                    && from == old(self).modules()[id@].state && to == ModuleState::Paused
                    && final(self).modules() == old(self).modules(),
                Err(_) => false,
            },
    {
        self.transition(id, ModuleState::Paused)
    }

    /// Resume a paused module.
    pub fn resume(&mut self, id: &str) -> (r: Result<(), ModuleError>)
        requires
            old(self).wf(),
            old(self).modules().contains_key(id@) ==> old(self).modules()[id@].transition_count < u64::MAX,
        ensures
            final(self).wf(),
            r is Ok ==> emitted(old(self).event_bus(), final(self).event_bus(), "module.enabled"@, id@),
            r is Err ==> final(self).event_bus() == old(self).event_bus(),
            match r {
                Ok(()) => {
                    &&& old(self).modules().contains_key(id@)
                    &&& valid_transition(old(self).modules()[id@].state, ModuleState::Enabled)
                    &&& final(self).modules().dom() == old(self).modules().dom()
                    &&& forall|k: Seq<char>| k != id@ && #[trigger] old(self).modules().contains_key(k)
                        ==> final(self).modules()[k] == old(self).modules()[k]
                    &&& changed_state(old(self).modules()[id@], final(self).modules()[id@], ModuleState::Enabled)
                },
                Err(ModuleError::NotFound(e)) => !old(self).modules().contains_key(id@) && e@ == id@
                    && final(self).modules() == old(self).modules(),
                Err(ModuleError::InvalidTransition { id: e, from, to }) => old(self).modules().contains_key(id@)
                    && !valid_transition(old(self).modules()[id@].state, ModuleState::Enabled) && e@ == id@
                    && from == old(self).modules()[id@].state && to == ModuleState::Enabled
                    && final(self).modules() == old(self).modules(),
                Err(_) => false,
            },
    {
        self.transition(id, ModuleState::Enabled)
    }

    /// Mark a module that is not enabled as removed.
    pub fn uninstall(&mut self, id: &str) -> (r: Result<(), ModuleError>)
        requires
            old(self).wf(),
            old(self).modules().contains_key(id@) ==> old(self).modules()[id@].transition_count < u64::MAX,
        ensures
            final(self).wf(),
            r is Ok ==> emitted(old(self).event_bus(), final(self).event_bus(), "module.uninstalled"@, id@),
            r is Err ==> final(self).event_bus() == old(self).event_bus(),
            match r {
                Ok(()) => {
                    &&& old(self).modules().contains_key(id@)
                    &&& old(self).modules()[id@].state != ModuleState::Enabled
                    &&& final(self).modules().dom() == old(self).modules().dom()
                    &&& forall|k: Seq<char>| k != id@ && #[trigger] old(self).modules().contains_key(k)
                        ==> final(self).modules()[k] == old(self).modules()[k]
                    &&& changed_state(old(self).modules()[id@], final(self).modules()[id@], ModuleState::Removed)
                },
                Err(ModuleError::NotFound(e)) => !old(self).modules().contains_key(id@) && e@ == id@
                    && final(self).modules() == old(self).modules(),
                Err(ModuleError::WrongState { id: e, state, expected }) => old(self).modules().contains_key(id@)
                    && old(self).modules()[id@].state == ModuleState::Enabled && e@ == id@ && state
                    == ModuleState::Enabled && expected == ModuleState::Installed && final(self).modules()
                    == old(self).modules(),
                Err(_) => false,
            },
    {
        let i = match self.find(id) {
            Some(i) => i,
            None => {
                return Err(ModuleError::NotFound(id.to_owned()));
            },
        };
        if self.modules[i].state == ModuleState::Enabled {
            return Err(
                ModuleError::WrongState {
                    id: id.to_owned(),
                    state: ModuleState::Enabled,
                    expected: ModuleState::Installed,
                },
            );
        }
        let now = now_unix_nanos();
        let mut m = self.modules[i].duplicate();
        m.state = ModuleState::Removed;
        m.last_transition = now;
        m.transition_count = m.transition_count + 1;
        let ghost prev = self.modules@.map_values(|m: Module| m@);
        let ghost mv = m@;
        proof {
            lemma_keyed_map_update(prev, module_key(), i as int, mv);
            lemma_keyed_map_contents(prev, module_key());
        }
        self.modules.set(i, m);
        assert(self.modules@.map_values(|m: Module| m@) =~= prev.update(i as int, mv));
        self.emit_event("module.uninstalled", id);
        Ok(())
    }

    /// The module with this id.
    pub fn get(&self, id: &str) -> (r: Option<Module>)
        requires
            self.wf(),
        ensures
            match r {
                Some(m) => self.modules().contains_key(id@) && m@ == self.modules()[id@],
                None => !self.modules().contains_key(id@),
            },
    {
        match self.find(id) {
            Some(i) => Some(self.modules[i].duplicate()),
            None => None,
        }
    }

    /// All modules, in installation order.
    pub fn list(&self) -> (r: Vec<Module>)
        ensures
            r@.map_values(|m: Module| m@) == self.module_seq(),
    {
        let mut out: Vec<Module> = Vec::new();
        let mut i: usize = 0;
        while i < self.modules.len()
            invariant
                i <= self.modules@.len(),
                out@.map_values(|m: Module| m@) == self.modules@.map_values(|m: Module| m@).take(i as int),
            decreases self.modules@.len() - i,
        {
            let m = self.modules[i].duplicate();
            let ghost prev = out@.map_values(|m: Module| m@);
            let ghost mv = m@;
            out.push(m);
            assert(out@.map_values(|m: Module| m@) =~= prev.push(mv));
            assert(out@.map_values(|m: Module| m@) =~= self.modules@.map_values(|m: Module| m@).take(i + 1));
            i = i + 1;
        }
        assert(self.modules@.map_values(|m: Module| m@).take(i as int) =~= self.modules@.map_values(|m: Module| m@));
        out
    }

    /// The modules in a given state, in installation order.
    pub fn list_in_state(&self, state: ModuleState) -> (r: Vec<Module>)
        ensures
            r@.map_values(|m: Module| m@) == self.module_seq().filter(|m: ModuleView| m.state == state),
    {
        let ghost all = self.modules@.map_values(|m: Module| m@);
        let ghost p = |m: ModuleView| m.state == state;
        let mut out: Vec<Module> = Vec::new();
        let mut i: usize = 0;
        proof {
            crate::seq_facts::lemma_filter_take_zero(all, p);
        }
        while i < self.modules.len()
            invariant
                i <= self.modules@.len(),
                all == self.modules@.map_values(|m: Module| m@),
                p == (|m: ModuleView| m.state == state),
                out@.map_values(|m: Module| m@) == all.take(i as int).filter(p),
            decreases self.modules@.len() - i,
        {
            proof {
                crate::seq_facts::lemma_filter_take_step(all, p, i as int);
            }
            if self.modules[i].state == state {
                let m = self.modules[i].duplicate();
                let ghost prev = out@.map_values(|m: Module| m@);
                out.push(m);
                assert(out@.map_values(|m: Module| m@) =~= prev.push(all[i as int]));
            }
            i = i + 1;
        }
        proof {
            crate::seq_facts::lemma_take_full(all);
        }
        out
    }
}

/// The lifecycle: only the edges of the graph above are ever taken, a
/// removed module never comes back, and pausing then resuming returns to
/// the enabled state.
pub proof fn lemma_lifecycle(from: ModuleState, to: ModuleState)
    ensures
        from == ModuleState::Removed ==> !valid_transition(from, to),
        to == ModuleState::Removed ==> !valid_transition(from, to),
        valid_transition(ModuleState::Enabled, ModuleState::Paused)
            && valid_transition(ModuleState::Paused, ModuleState::Enabled),
        valid_transition(from, to) ==> from != to,
{
}

} // verus!
