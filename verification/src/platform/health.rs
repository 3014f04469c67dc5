//! The health monitor: each subsystem reports its health; the overall
//! status is the worst reported one.

use vstd::prelude::*;
use crate::keyed::{keyed_map, keys_distinct, lemma_keyed_map_contents, lemma_keyed_map_push, lemma_keyed_map_update};
use crate::sys::now_unix_nanos;
use crate::text::str_eq;

verus! {

/// Health status, from best to worst.
#[derive(Clone, Copy, Debug, PartialEq, Eq, Hash, Structural)]
pub enum HealthStatus {
    /// Everything works.
    Healthy,
    /// Something is degraded but the system operates.
    Degraded,
    /// A critical part fails.
    Unhealthy,
}

impl HealthStatus {
    /// The status name (what `Display` prints).
    pub fn to_string(&self) -> (s: String)
        ensures
            s@ == health_status_name(*self),
    {
        match self {
            HealthStatus::Healthy => "healthy".to_owned(),
            HealthStatus::Degraded => "degraded".to_owned(),
            HealthStatus::Unhealthy => "unhealthy".to_owned(),
        }
    }
}

/// The name of a status.
pub open spec fn health_status_name(s: HealthStatus) -> Seq<char> {
    match s {
        HealthStatus::Healthy => "healthy"@,
        HealthStatus::Degraded => "degraded"@,
        HealthStatus::Unhealthy => "unhealthy"@,
    }
}

/// Health of one subsystem.
#[derive(Debug)]
pub struct SubsystemHealth {
    /// Subsystem name.
    pub name: String,
    /// Its status.
    pub status: HealthStatus,
    /// Time of the last report (unix nanoseconds).
    pub last_check: i64,
    /// Optional message.
    pub message: Option<String>,
}

/// A subsystem report as values.
pub struct SubsystemView {
    pub name: Seq<char>,
    pub status: HealthStatus,
    pub last_check: i64,
    pub message: Option<Seq<char>>,
}

impl View for SubsystemHealth {
    type V = SubsystemView;

    open spec fn view(&self) -> SubsystemView {
        SubsystemView {
            name: self.name@,
            status: self.status,
            last_check: self.last_check,
            message: crate::audit::entry::opt_view(self.message),
        }
    }
}

/// Key of a report.
pub open spec fn subsystem_key() -> spec_fn(SubsystemView) -> Seq<char> {
    |s: SubsystemView| s.name
}

/// The overall status of a set of reports: unhealthy if any is, else
/// degraded if any is, else healthy.
pub open spec fn overall_status(reports: Seq<SubsystemView>) -> HealthStatus {
    if exists|i: int| 0 <= i < reports.len() && #[trigger] reports[i].status == HealthStatus::Unhealthy {
        HealthStatus::Unhealthy
    } else if exists|i: int| 0 <= i < reports.len() && #[trigger] reports[i].status == HealthStatus::Degraded {
        HealthStatus::Degraded
    } else {
        HealthStatus::Healthy
    }
}

/// The health monitor.
#[derive(Debug)]
pub struct HealthMonitor {
    subsystems: Vec<SubsystemHealth>,
}

impl Default for HealthMonitor {
    fn default() -> (m: HealthMonitor)
        ensures
            m.wf(),
            m.reports() == Seq::<SubsystemView>::empty(),
    {
        HealthMonitor::new()
    }
}

impl HealthMonitor {
    /// The reports, in the order subsystems first reported.
    pub closed spec fn reports(&self) -> Seq<SubsystemView> {
        self.subsystems@.map_values(|s: SubsystemHealth| s@)
    }

    /// The reports by subsystem name.
    pub open spec fn by_name(&self) -> Map<Seq<char>, SubsystemView> {
        keyed_map(self.reports(), subsystem_key())
    }

    /// Well-formedness: one report per subsystem.
    pub closed spec fn wf(&self) -> bool {
        keys_distinct(self.reports(), subsystem_key())
    }

    /// A monitor without reports.
    pub fn new() -> (m: HealthMonitor)
        ensures
            m.wf(),
            m.reports() == Seq::<SubsystemView>::empty(),
    {
        let m = HealthMonitor { subsystems: Vec::new() };
        assert(m.reports() =~= Seq::<SubsystemView>::empty());
        m
    }

    /// Record (or replace) the health of a subsystem.
    pub fn report(&mut self, name: &str, status: HealthStatus, message: Option<String>)
        requires
            old(self).wf(),
        ensures
            final(self).wf(),
            final(self).by_name().dom() == old(self).by_name().dom().insert(name@),
            forall|k: Seq<char>| k != name@ && #[trigger] old(self).by_name().contains_key(k)
                ==> final(self).by_name()[k] == old(self).by_name()[k],
            final(self).by_name()[name@].name == name@,
            final(self).by_name()[name@].status == status,
            final(self).by_name()[name@].message == crate::audit::entry::opt_view(message),
            final(self).reports().len() == old(self).by_name().dom().insert(name@).len(),
    {
        let ghost msgv = crate::audit::entry::opt_view(message);
        let entry = SubsystemHealth { name: name.to_owned(), status, last_check: now_unix_nanos(), message };
        let ghost prev = self.reports();
        let ghost ev = entry@;
        proof {
            lemma_keyed_map_contents(prev, subsystem_key());
        }
        let mut i: usize = 0;
        while i < self.subsystems.len()
            invariant
                i <= self.subsystems@.len(),
                prev == self.reports(),
                prev == old(self).reports(),
                keys_distinct(prev, subsystem_key()),
                ev.name == name@,
                ev == entry@,
                ev.status == status,
                ev.message == msgv,
                msgv == crate::audit::entry::opt_view(message),
                forall|j: int| 0 <= j < i ==> self.subsystems@[j].name@ != name@,
            decreases self.subsystems@.len() - i,
        {
            if str_eq(self.subsystems[i].name.as_str(), name) {
                proof {
                    assert(prev[i as int] == self.subsystems@[i as int]@);
                    lemma_keyed_map_update(prev, subsystem_key(), i as int, ev);
                    lemma_keyed_map_contents(prev.update(i as int, ev), subsystem_key());
                    lemma_keyed_map_contents(prev, subsystem_key());
                    assert(old(self).by_name().contains_key(name@));
                    assert(old(self).by_name().dom().insert(name@) =~= old(self).by_name().dom());
                }
                self.subsystems.set(i, entry);
                assert(self.reports() =~= prev.update(i as int, ev));
                return;
            }
            i = i + 1;
        }
        proof {
            assert forall|j: int| 0 <= j < prev.len() implies subsystem_key()(prev[j]) != subsystem_key()(ev) by {
                assert(prev[j] == self.subsystems@[j]@);
            }
            lemma_keyed_map_push(prev, subsystem_key(), ev);
            lemma_keyed_map_contents(prev.push(ev), subsystem_key());
        }
        self.subsystems.push(entry);
        assert(self.reports() =~= prev.push(ev));
    }

    /// The overall status: the worst reported one (healthy with no reports).
    pub fn status(&self) -> (s: HealthStatus)
        ensures
            s == overall_status(self.reports()),
    {
        let mut worst = HealthStatus::Healthy;
        let mut i: usize = 0;
        while i < self.subsystems.len()
            invariant
                i <= self.subsystems@.len(),
                forall|j: int| 0 <= j < i ==> self.reports()[j].status != HealthStatus::Unhealthy,
                worst == HealthStatus::Degraded <==> exists|j: int|
                    0 <= j < i && #[trigger] self.reports()[j].status == HealthStatus::Degraded,
                worst != HealthStatus::Unhealthy,
            decreases self.subsystems@.len() - i,
        {
            assert(self.reports()[i as int] == self.subsystems@[i as int]@);
            match self.subsystems[i].status {
                HealthStatus::Unhealthy => {
                    return HealthStatus::Unhealthy;
                },
                HealthStatus::Degraded => {
                    worst = HealthStatus::Degraded;
                },
                HealthStatus::Healthy => {},
            }
            i = i + 1;
        }
        worst
    }

    /// A copy of every report.
    pub fn snapshot(&self) -> (r: Vec<SubsystemHealth>)
        ensures
            r@.map_values(|s: SubsystemHealth| s@) == self.reports(),
    {
        let mut out: Vec<SubsystemHealth> = Vec::new();
        let mut i: usize = 0;
        while i < self.subsystems.len()
            invariant
                i <= self.subsystems@.len(),
                out@.map_values(|s: SubsystemHealth| s@) == self.reports().take(i as int),
            decreases self.subsystems@.len() - i,
        {
            let s = &self.subsystems[i];
            let c = SubsystemHealth {
                name: s.name.clone(),
                status: s.status,
                last_check: s.last_check,
                message: crate::audit::entry::copy_opt_string(&s.message),
            };
            let ghost prev = out@.map_values(|s: SubsystemHealth| s@);
            let ghost cv = c@;
            out.push(c);
            assert(out@.map_values(|s: SubsystemHealth| s@) =~= prev.push(cv));
            assert(out@.map_values(|s: SubsystemHealth| s@) =~= self.reports().take(i + 1));
            i = i + 1;
        }
        assert(self.reports().take(i as int) =~= self.reports());
        out
    }

    /// Whether the overall status is healthy.
    pub fn is_healthy(&self) -> (b: bool)
        ensures
            b == (overall_status(self.reports()) == HealthStatus::Healthy),
    {
        self.status() == HealthStatus::Healthy
    }
}

/// One unhealthy subsystem makes the whole system unhealthy, whatever the
/// other reports say.
pub proof fn lemma_unhealthy_dominates(reports: Seq<SubsystemView>, i: int)
    requires
        0 <= i < reports.len(),
        reports[i].status == HealthStatus::Unhealthy,
    ensures
        overall_status(reports) == HealthStatus::Unhealthy,
{
}

} // verus!
