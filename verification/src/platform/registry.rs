//! The service registry: logical service names to running instances.
//!
//! Instances are registered under a unique instance id and indexed by
//! their service name, in registration order. Lookups see the instances
//! of a name in that order; a pick prefers the highest priority among the
//! healthy ones, the earliest registered on a tie.

use vstd::prelude::*;
use crate::index::{forget_id, ids_for, ids_of, record_id, without_id, CustomerIds};
use crate::sys::now_unix_nanos;
use crate::table::{Record, Table, models};
use crate::text::{copy_strings, push_str};

verus! {

/// Logical service name (e.g. `auth`, `billing.invoice`).
pub type ServiceName = String;

/// Unique instance id.
pub type InstanceId = String;

/// A registered service instance.
#[derive(Debug)]
pub struct ServiceInstance {
    /// Logical service name.
    pub name: ServiceName,
    /// Unique instance id.
    pub instance_id: InstanceId,
    /// Endpoint address (`host:port`).
    pub addr: String,
    /// Advertised capabilities.
    pub capabilities: Vec<String>,
    /// Region.
    pub region: String,
    /// Last heartbeat (unix nanoseconds).
    pub last_heartbeat: i64,
    /// Whether the instance is healthy.
    pub healthy: bool,
    /// Priority for picking (higher first).
    pub priority: u32,
}

/// An instance as values.
pub struct InstanceView {
    pub name: Seq<char>,
    pub instance_id: Seq<char>,
    pub addr: Seq<char>,
    pub capabilities: Seq<String>,
    pub region: Seq<char>,
    pub last_heartbeat: i64,
    pub healthy: bool,
    pub priority: u32,
}

impl View for ServiceInstance {
    type V = InstanceView;

    open spec fn view(&self) -> InstanceView {
        InstanceView {
            name: self.name@,
            instance_id: self.instance_id@,
            addr: self.addr@,
            capabilities: self.capabilities@,
            region: self.region@,
            last_heartbeat: self.last_heartbeat,
            healthy: self.healthy,
            priority: self.priority,
        }
    }
}

impl Record for ServiceInstance {
    type Model = InstanceView;

    open spec fn model(&self) -> InstanceView {
        self@
    }

    open spec fn model_key(m: InstanceView) -> Seq<char> {
        m.instance_id
    }

    fn key(&self) -> (k: &str) {
        self.instance_id.as_str()
    }

    fn copy(&self) -> (r: ServiceInstance) {
        ServiceInstance {
            name: self.name.clone(),
            instance_id: self.instance_id.clone(),
            addr: self.addr.clone(),
            capabilities: copy_strings(&self.capabilities),
            region: self.region.clone(),
            last_heartbeat: self.last_heartbeat,
            healthy: self.healthy,
            priority: self.priority,
        }
    }
}

/// Error of a registry operation.
#[derive(Debug)]
pub enum RegistryError {
    /// No (healthy) instance for the service.
    NotFound(ServiceName),
    /// The instance id is already registered.
    AlreadyExists(InstanceId),
}

impl RegistryError {
    /// The error message.
    pub fn to_string(&self) -> (s: String)
        ensures
            s@ == match self {
                RegistryError::NotFound(n) => "no instance found for service: "@ + n@,
                RegistryError::AlreadyExists(i) => "instance already registered: "@ + i@,
            },
    {
        match self {
            RegistryError::NotFound(n) => {
                let mut s = "no instance found for service: ".to_owned();
                push_str(&mut s, n.as_str());
                s
            },
            RegistryError::AlreadyExists(i) => {
                let mut s = "instance already registered: ".to_owned();
                push_str(&mut s, i.as_str());
                s
            },
        }
    }
}

/// The instances named by `ids` that are registered, in that order.
pub open spec fn resolve(instances: Map<Seq<char>, InstanceView>, ids: Seq<Seq<char>>) -> Seq<InstanceView>
    decreases ids.len(),
{
    if ids.len() == 0 {
        Seq::empty()
    } else {
        let rest = resolve(instances, ids.drop_last());
        if instances.contains_key(ids.last()) {
            rest.push(instances[ids.last()])
        } else {
            rest
        }
    }
}

/// The healthy ones among `s`, in order.
pub open spec fn healthy_only(s: Seq<InstanceView>) -> Seq<InstanceView> {
    s.filter(|i: InstanceView| i.healthy)
}

/// Whether `i` is the first position of `s` holding its highest priority.
pub open spec fn first_highest(s: Seq<InstanceView>, i: int) -> bool {
    &&& 0 <= i < s.len()
    &&& forall|j: int| 0 <= j < s.len() ==> #[trigger] s[j].priority <= s[i].priority
    &&& forall|j: int| 0 <= j < i ==> #[trigger] s[j].priority < s[i].priority
}

/// The service registry.
#[derive(Debug)]
pub struct ServiceRegistry {
    instances: Table<ServiceInstance>,
    by_name: Table<CustomerIds>,
}

impl Default for ServiceRegistry {
    fn default() -> (r: ServiceRegistry)
        ensures
            r.wf(),
            r.instances() == Map::<Seq<char>, InstanceView>::empty(),
    {
        ServiceRegistry::new()
    }
}

impl ServiceRegistry {
    /// The instances by instance id.
    pub closed spec fn instances(&self) -> Map<Seq<char>, InstanceView> {
        self.instances.map()
    }

    /// The instances in registration order.
    pub closed spec fn instance_seq(&self) -> Seq<InstanceView> {
        self.instances.seq()
    }

    /// The instance ids of a service name, in registration order.
    pub closed spec fn ids_of_name(&self, name: Seq<char>) -> Seq<Seq<char>> {
        ids_for(self.by_name.map(), name)
    }

    /// The registered instances of a service name, in registration order.
    pub open spec fn instances_of(&self, name: Seq<char>) -> Seq<InstanceView> {
        resolve(self.instances(), self.ids_of_name(name))
    }

    /// Well-formedness: ids and names are distinct.
    pub closed spec fn wf(&self) -> bool {
        self.instances.wf() && self.by_name.wf()
    }

    /// An empty registry.
    pub fn new() -> (r: ServiceRegistry)
        ensures
            r.wf(),
            r.instances() == Map::<Seq<char>, InstanceView>::empty(),
            forall|n: Seq<char>| #[trigger] r.ids_of_name(n) == Seq::<Seq<char>>::empty(),
    {
        ServiceRegistry { instances: Table::new(), by_name: Table::new() }
    }

    /// Number of registered instances.
    pub fn service_count(&self) -> (n: usize)
        requires
            self.wf(),
        ensures
            n == self.instances().len(),
    {
        self.instances.len()
    }

    /// Register an instance; refused when its instance id is taken.
    pub fn register(&mut self, instance: ServiceInstance) -> (r: Result<(), RegistryError>)
        requires
            old(self).wf(),
        ensures
            final(self).wf(),
            match r {
                Ok(()) => {
                    &&& !old(self).instances().contains_key(instance.instance_id@)
                    &&& final(self).instances() == old(self).instances().insert(instance.instance_id@, instance@)
                    &&& final(self).ids_of_name(instance.name@) == old(self).ids_of_name(instance.name@).push(
                        instance.instance_id@,
                    )
                    &&& forall|n: Seq<char>| n != instance.name@ ==> #[trigger] final(self).ids_of_name(n)
                        == old(self).ids_of_name(n)
                },
                Err(e) => {
                    &&& e matches RegistryError::AlreadyExists(id) && id@ == instance.instance_id@
                    &&& old(self).instances().contains_key(instance.instance_id@)
                    &&& final(self).instances() == old(self).instances()
                    &&& forall|n: Seq<char>| #[trigger] final(self).ids_of_name(n) == old(self).ids_of_name(n)
                },
            },
    {
        if self.instances.find(instance.instance_id.as_str()).is_some() {
            return Err(RegistryError::AlreadyExists(instance.instance_id.clone()));
        }
        let name = instance.name.clone();
        let id = instance.instance_id.clone();
        self.instances.upsert(instance);
        record_id(&mut self.by_name, name.as_str(), id.as_str());
        Ok(())
    }

    /// Remove an instance; whether it was registered.
    pub fn deregister(&mut self, instance_id: &str) -> (removed: bool)
        requires
            old(self).wf(),
        ensures
            final(self).wf(),
            removed == old(self).instances().contains_key(instance_id@),
            final(self).instances() == old(self).instances().remove(instance_id@),
            forall|n: Seq<char>| #[trigger] final(self).ids_of_name(n) == if removed && n
                == old(self).instances()[instance_id@].name {
                without_id(old(self).ids_of_name(n), instance_id@)
            } else {
                old(self).ids_of_name(n)
            },
    {
        let removed = self.instances.remove(instance_id);
        match removed {
            Some(inst) => {
                let ghost before = self.by_name.map();
                forget_id(&mut self.by_name, inst.name.as_str(), instance_id);
                let left = ids_of(&self.by_name, inst.name.as_str());
                if left.len() == 0 {
                    let _ = self.by_name.remove(inst.name.as_str());
                }
                proof {
                    assert forall|n: Seq<char>| #[trigger] self.ids_of_name(n) == if n == inst.name@ {
                        without_id(old(self).ids_of_name(n), instance_id@)
                    } else {
                        old(self).ids_of_name(n)
                    } by {
                        if n == inst.name@ && !before.contains_key(n) {
                            assert(without_id(Seq::<Seq<char>>::empty(), instance_id@) =~= Seq::<Seq<char>>::empty());
                        }
                    }
                }
                true
            },
            None => false,
        }
    }

    /// Record a heartbeat of an instance at time `now`: it becomes healthy.
    pub fn heartbeat_at(&mut self, instance_id: &str, now: i64) -> (found: bool)
        requires
            old(self).wf(),
        ensures
            final(self).wf(),
            found == old(self).instances().contains_key(instance_id@),
            final(self).instances() == if found {
                old(self).instances().insert(
                    instance_id@,
                    InstanceView { last_heartbeat: now, healthy: true, ..old(self).instances()[instance_id@] },
                )
            } else {
                old(self).instances()
            },
            forall|n: Seq<char>| #[trigger] final(self).ids_of_name(n) == old(self).ids_of_name(n),
    {
        match self.instances.find(instance_id) {
            Some(i) => {
                let mut inst = self.instances.at(i).copy();
                inst.last_heartbeat = now;
                inst.healthy = true;
                self.instances.set_at(i, inst);
                true
            },
            None => false,
        }
    }

    /// Record a heartbeat of an instance now.
    pub fn heartbeat(&mut self, instance_id: &str) -> (found: bool)
        requires
            old(self).wf(),
        ensures
            final(self).wf(),
            found == old(self).instances().contains_key(instance_id@),
            found ==> final(self).instances()[instance_id@].healthy,
            final(self).instances().dom() == old(self).instances().dom(),
    {
        self.heartbeat_at(instance_id, now_unix_nanos())
    }

    /// Mark an instance unhealthy; whether it is registered.
    pub fn mark_unhealthy(&mut self, instance_id: &str) -> (found: bool)
        requires
            old(self).wf(),
        ensures
            final(self).wf(),
            found == old(self).instances().contains_key(instance_id@),
            final(self).instances() == if found {
                old(self).instances().insert(
                    instance_id@,
                    InstanceView { healthy: false, ..old(self).instances()[instance_id@] },
                )
            } else {
                old(self).instances()
            },
            forall|n: Seq<char>| #[trigger] final(self).ids_of_name(n) == old(self).ids_of_name(n),
    {
        match self.instances.find(instance_id) {
            Some(i) => {
                let mut inst = self.instances.at(i).copy();
                inst.healthy = false;
                self.instances.set_at(i, inst);
                true
            },
            None => false,
        }
    }

    /// The registered instances of a service name, in registration order.
    pub fn lookup(&self, name: &str) -> (r: Vec<ServiceInstance>)
        requires
            self.wf(),
        ensures
            models(r@) == self.instances_of(name@),
    {
        let ids = ids_of(&self.by_name, name);
        let ghost idv = ids@.map_values(|s: String| s@);
        let mut out: Vec<ServiceInstance> = Vec::new();
        let mut i: usize = 0;
        while i < ids.len()
            invariant
                self.wf(),
                i <= ids@.len(),
                idv == ids@.map_values(|s: String| s@),
                idv == self.ids_of_name(name@),
                models(out@) == resolve(self.instances(), idv.take(i as int)),
            decreases ids@.len() - i,
        {
            assert(idv.take(i + 1).drop_last() =~= idv.take(i as int));
            assert(idv.take(i + 1).last() == ids@[i as int]@);
            match self.instances.get(ids[i].as_str()) {
                Some(inst) => {
                    let ghost before = models(out@);
                    out.push(inst);
                    assert(models(out@) =~= before.push(self.instances()[ids@[i as int]@]));
                },
                None => {},
            }
            i = i + 1;
        }
        assert(idv.take(ids@.len() as int) =~= idv);
        out
    }

    /// The healthy registered instances of a service name, in order.
    pub fn lookup_healthy(&self, name: &str) -> (r: Vec<ServiceInstance>)
        requires
            self.wf(),
        ensures
            models(r@) == healthy_only(self.instances_of(name@)),
    {
        let all = self.lookup(name);
        let ghost s = models(all@);
        let ghost p = |i: InstanceView| i.healthy;
        let mut out: Vec<ServiceInstance> = Vec::new();
        let mut i: usize = 0;
        proof {
            crate::seq_facts::lemma_filter_take_zero(s, p);
        }
        while i < all.len()
            invariant
                i <= all@.len(),
                s == models(all@),
                p == (|i: InstanceView| i.healthy),
                models(out@) == s.take(i as int).filter(p),
            decreases all@.len() - i,
        {
            proof {
                crate::seq_facts::lemma_filter_take_step(s, p, i as int);
            }
            assert(s[i as int] == all@[i as int]@);
            if all[i].healthy {
                let x = all[i].copy();
                let ghost before = models(out@);
                out.push(x);
                assert(models(out@) =~= before.push(s[i as int]));
            }
            i = i + 1;
        }
        proof {
            crate::seq_facts::lemma_take_full(s);
        }
        out
    }

    /// The healthy instance of a service name with the highest priority
    /// (the earliest registered on a tie); `NotFound` without one.
    pub fn pick_one(&self, name: &str) -> (r: Result<ServiceInstance, RegistryError>)
        requires
            self.wf(),
        ensures
            match r {
                Ok(inst) => exists|i: int| #[trigger]
                    first_highest(healthy_only(self.instances_of(name@)), i) && inst@ == healthy_only(
                        self.instances_of(name@),
                    )[i],
                Err(e) => e matches RegistryError::NotFound(n) && n@ == name@ && healthy_only(
                    self.instances_of(name@),
                ).len() == 0,
            },
    {
        let healthy = self.lookup_healthy(name);
        let ghost s = models(healthy@);
        if healthy.len() == 0 {
            return Err(RegistryError::NotFound(name.to_owned()));
        }
        let mut best: usize = 0;
        let mut i: usize = 1;
        while i < healthy.len()
            invariant
                1 <= i <= healthy@.len(),
                best < i,
                s == models(healthy@),
                forall|j: int| 0 <= j < i ==> #[trigger] s[j].priority <= s[best as int].priority,
                forall|j: int| 0 <= j < best ==> #[trigger] s[j].priority < s[best as int].priority,
            decreases healthy@.len() - i,
        {
            assert(s[i as int] == healthy@[i as int]@);
            assert(s[best as int] == healthy@[best as int]@);
            if healthy[i].priority > healthy[best].priority {
                best = i;
            }
            i = i + 1;
        }
        assert(s[best as int] == healthy@[best as int]@);
        assert(first_highest(s, best as int));
        Ok(healthy[best].copy())
    }

    /// Copies of all instances, in registration order.
    pub fn list(&self) -> (r: Vec<ServiceInstance>)
        ensures
            models(r@) == self.instance_seq(),
    {
        self.instances.all()
    }
}


/// A lookup finds what a registration stored: once `register` has stored
/// instance `inst` with id `id` under service `name` (moving the registry
/// from `before` to `after`), the instances listed under `name` end with
/// it.
pub proof fn lemma_lookup_after_register(
    before: ServiceRegistry,
    after: ServiceRegistry,
    id: Seq<char>,
    name: Seq<char>,
    inst: InstanceView,
)
    requires
        after.instances() == before.instances().insert(id, inst),
        after.ids_of_name(name) == before.ids_of_name(name).push(id),
    ensures
        after.instances_of(name).len() > 0,
        after.instances_of(name).last() == inst,
{
    let ids = after.ids_of_name(name);
    assert(ids.drop_last() =~= before.ids_of_name(name));
    assert(ids.last() == id);
}

} // verus!
