//! The permission engine: principals hold roles, roles grant permissions on
//! resource patterns; a request is allowed when some role of the principal
//! grants the permission on a pattern that matches the resource.

use vstd::prelude::*;
use crate::keyed::{keyed_map, keys_distinct, lemma_keyed_map_contents, lemma_keyed_map_push, lemma_keyed_map_update};
use crate::platform::events::has_prefix;
use crate::text::{copy_strings, starts_with, str_eq};

verus! {

/// Identifier of a principal.
pub type PrincipalId = String;

/// Identifier of a role.
pub type RoleId = String;

/// Resource pattern (`*` alone, a prefix ending in `*`, or an exact name).
pub type ResourcePattern = String;

/// A permission.
#[derive(Clone, Copy, Debug, PartialEq, Eq, Hash, Structural)]
pub enum Permission {
    /// Read access.
    Read,
    /// Write access.
    Write,
    /// Create a resource.
    Create,
    /// Delete a resource.
    Delete,
    /// Execute a command.
    Execute,
    /// Administrative operations.
    Admin,
}

impl Permission {
    /// The permission's name (what `Display` prints).
    pub fn to_string(&self) -> (s: String)
        ensures
            s@ == permission_name(*self),
    {
        match self {
            Permission::Read => "read".to_owned(),
            Permission::Write => "write".to_owned(),
            Permission::Create => "create".to_owned(),
            Permission::Delete => "delete".to_owned(),
            Permission::Execute => "execute".to_owned(),
            Permission::Admin => "admin".to_owned(),
        }
    }
}

/// The name of a permission.
pub open spec fn permission_name(p: Permission) -> Seq<char> {
    match p {
        Permission::Read => "read"@,
        Permission::Write => "write"@,
        Permission::Create => "create"@,
        Permission::Delete => "delete"@,
        Permission::Execute => "execute"@,
        Permission::Admin => "admin"@,
    }
}

/// Kind of principal.
#[derive(Clone, Copy, Debug, PartialEq, Eq, Hash, Structural)]
pub enum PrincipalKind {
    /// Human user.
    User,
    /// Backend service.
    Service,
    /// Plugin.
    Plugin,
    /// AI agent.
    AiAgent,
}

/// Anything that can be granted permissions.
#[derive(Debug)]
pub struct Principal {
    /// Unique id.
    pub id: PrincipalId,
    /// Display name.
    pub name: String,
    /// Kind.
    pub kind: PrincipalKind,
    /// The roles held (as a set: order and repetition do not matter).
    pub roles: Vec<RoleId>,
}

/// One grant: a permission on a resource pattern.
#[derive(Debug)]
pub struct Grant {
    /// The permission.
    pub permission: Permission,
    /// The resource pattern.
    pub resource: ResourcePattern,
}

/// A role: a named set of grants.
#[derive(Debug)]
pub struct Role {
    /// Role id.
    pub id: RoleId,
    /// Description.
    pub description: String,
    /// The grants.
    pub grants: Vec<Grant>,
}

/// A principal as values.
pub struct PrincipalView {
    pub id: Seq<char>,
    pub name: Seq<char>,
    pub kind: PrincipalKind,
    pub roles: Seq<String>,
}

impl View for Principal {
    type V = PrincipalView;

    open spec fn view(&self) -> PrincipalView {
        PrincipalView { id: self.id@, name: self.name@, kind: self.kind, roles: self.roles@ }
    }
}

/// A role as values.
pub struct RoleView {
    pub id: Seq<char>,
    pub description: Seq<char>,
    pub grants: Seq<(Permission, Seq<char>)>,
}

impl View for Role {
    type V = RoleView;

    open spec fn view(&self) -> RoleView {
        RoleView {
            id: self.id@,
            description: self.description@,
            grants: self.grants@.map_values(|g: Grant| (g.permission, g.resource@)),
        }
    }
}

/// Result of an authorization check.
#[derive(Clone, Copy, Debug, PartialEq, Eq, Structural)]
pub enum Decision {
    /// Allowed.
    Allow,
    /// Denied.
    Deny,
}

/// Error of the permission engine.
#[derive(Debug)]
pub enum PermissionError {
    /// No principal has this id.
    PrincipalNotFound(PrincipalId),
    /// No role has this id.
    RoleNotFound(RoleId),
}

/// Whether a resource pattern matches a resource: `*` matches everything,
/// a pattern ending in `*` matches every resource that begins with the
/// part before it, any other pattern matches only itself.
pub open spec fn pattern_matches_spec(pattern: Seq<char>, resource: Seq<char>) -> bool {
    if pattern.len() > 0 && pattern.last() == '*' {
        has_prefix(resource, pattern.drop_last())
    } else {
        pattern == resource
    }
}

/// Whether some grant gives `permission` on a pattern matching `resource`.
pub open spec fn grants_allow(grants: Seq<(Permission, Seq<char>)>, permission: Permission, resource: Seq<char>) -> bool {
    exists|j: int|
        0 <= j < grants.len() && #[trigger] grants[j].0 == permission && pattern_matches_spec(grants[j].1, resource)
}

/// Whether a pattern matches a resource (see [`pattern_matches_spec`]).
pub fn pattern_matches(pattern: &str, resource: &str) -> (b: bool)
    ensures
        b == pattern_matches_spec(pattern@, resource@),
{
    let n = pattern.unicode_len();
    if n > 0 && pattern.get_char(n - 1) == '*' {
        let prefix = pattern.substring_char(0, n - 1);
        assert(prefix@ =~= pattern@.drop_last());
        starts_with(resource, prefix)
    } else {
        str_eq(pattern, resource)
    }
}

/// The texts of a list of strings.
pub open spec fn strings_view(s: Seq<String>) -> Seq<Seq<char>> {
    s.map_values(|x: String| x@)
}

/// The names of the roles a principal holds.
pub open spec fn role_names(p: PrincipalView) -> Seq<Seq<char>> {
    strings_view(p.roles)
}

/// Key of a principal view.
pub open spec fn principal_key() -> spec_fn(PrincipalView) -> Seq<char> {
    |p: PrincipalView| p.id
}

/// Key of a role view.
pub open spec fn role_key() -> spec_fn(RoleView) -> Seq<char> {
    |r: RoleView| r.id
}

/// The permission engine.
#[derive(Debug)]
pub struct PermissionEngine {
    principals: Vec<Principal>,
    roles: Vec<Role>,
}

impl Default for PermissionEngine {
    fn default() -> (e: PermissionEngine)
        ensures
            e.wf(),
            e.principals() == Map::<Seq<char>, PrincipalView>::empty(),
            e.roles() == Map::<Seq<char>, RoleView>::empty(),
    {
        PermissionEngine::new()
    }
}

impl PermissionEngine {
    /// The principals by id.
    pub closed spec fn principals(&self) -> Map<Seq<char>, PrincipalView> {
        keyed_map(self.principals@.map_values(|p: Principal| p@), principal_key())
    }

    /// The roles by id.
    pub closed spec fn roles(&self) -> Map<Seq<char>, RoleView> {
        keyed_map(self.roles@.map_values(|r: Role| r@), role_key())
    }

    /// Well-formedness: ids of principals and of roles are distinct.
    pub closed spec fn wf(&self) -> bool {
        &&& keys_distinct(self.principals@.map_values(|p: Principal| p@), principal_key())
        &&& keys_distinct(self.roles@.map_values(|r: Role| r@), role_key())
    }

    /// Whether `principal` may exercise `permission` on `resource`.
    pub open spec fn allowed(&self, principal: Seq<char>, permission: Permission, resource: Seq<char>) -> bool {
        &&& self.principals().contains_key(principal)
        &&& exists|i: int|
            0 <= i < self.principals()[principal].roles.len() && {
                let role = #[trigger] self.principals()[principal].roles[i]@;
                self.roles().contains_key(role) && grants_allow(self.roles()[role].grants, permission, resource)
            }
    }

    /// An empty engine.
    pub fn new() -> (e: PermissionEngine)
        ensures
            e.wf(),
            e.principals() == Map::<Seq<char>, PrincipalView>::empty(),
            e.roles() == Map::<Seq<char>, RoleView>::empty(),
    {
        let e = PermissionEngine { principals: Vec::new(), roles: Vec::new() };
        assert(e.principals@.map_values(|p: Principal| p@) =~= Seq::<PrincipalView>::empty());
        assert(e.roles@.map_values(|r: Role| r@) =~= Seq::<RoleView>::empty());
        e
    }

    /// Number of principals.
    pub fn principal_count(&self) -> (n: usize)
        requires
            self.wf(),
        ensures
            n == self.principals().len(),
    {
        proof {
            lemma_keyed_map_contents(self.principals@.map_values(|p: Principal| p@), principal_key());
        }
        self.principals.len()
    }

    fn find_principal(&self, id: &str) -> (r: Option<usize>)
        requires
            self.wf(),
        ensures
            match r {
                Some(i) => i < self.principals@.len() && self.principals().contains_key(id@)
                    && self.principals()[id@] == self.principals@[i as int]@,
                None => !self.principals().contains_key(id@),
            },
    {
        let ghost vs = self.principals@.map_values(|p: Principal| p@);
        proof {
            lemma_keyed_map_contents(vs, principal_key());
        }
        let mut i: usize = 0;
        while i < self.principals.len()
            invariant
                i <= self.principals@.len(),
                vs == self.principals@.map_values(|p: Principal| p@),
                keys_distinct(vs, principal_key()),
                forall|j: int| 0 <= j < i ==> self.principals@[j].id@ != id@,
            decreases self.principals@.len() - i,
        {
            if str_eq(self.principals[i].id.as_str(), id) {
                assert(vs[i as int] == self.principals@[i as int]@);
                assert(principal_key()(vs[i as int]) == id@);
                proof {
                    lemma_keyed_map_contents(vs, principal_key());
                }
                return Some(i);
            }
            i = i + 1;
        }
        proof {
            if self.principals().contains_key(id@) {
                let j = choose|j: int| 0 <= j < vs.len() && principal_key()(vs[j]) == id@;
                assert(vs[j] == self.principals@[j]@);
            }
        }
        None
    }

    fn find_role(&self, id: &str) -> (r: Option<usize>)
        requires
            self.wf(),
        ensures
            match r {
                Some(i) => i < self.roles@.len() && self.roles().contains_key(id@) && self.roles()[id@]
                    == self.roles@[i as int]@,
                None => !self.roles().contains_key(id@),
            },
    {
        let ghost vs = self.roles@.map_values(|r: Role| r@);
        proof {
            lemma_keyed_map_contents(vs, role_key());
        }
        let mut i: usize = 0;
        while i < self.roles.len()
            invariant
                i <= self.roles@.len(),
                vs == self.roles@.map_values(|r: Role| r@),
                keys_distinct(vs, role_key()),
                forall|j: int| 0 <= j < i ==> self.roles@[j].id@ != id@,
            decreases self.roles@.len() - i,
        {
            if str_eq(self.roles[i].id.as_str(), id) {
                assert(vs[i as int] == self.roles@[i as int]@);
                assert(role_key()(vs[i as int]) == id@);
                proof {
                    lemma_keyed_map_contents(vs, role_key());
                }
                return Some(i);
            }
            i = i + 1;
        }
        proof {
            if self.roles().contains_key(id@) {
                let j = choose|j: int| 0 <= j < vs.len() && role_key()(vs[j]) == id@;
                assert(vs[j] == self.roles@[j]@);
            }
        }
        None
    }

    /// Register a role, replacing any role with the same id.
    pub fn register_role(&mut self, role: Role)
        requires
            old(self).wf(),
        ensures
            final(self).wf(),
            final(self).roles() == old(self).roles().insert(role@.id, role@),
            final(self).principals() == old(self).principals(),
    {
        let ghost prev = self.roles@.map_values(|r: Role| r@);
        let ghost rv = role@;
        proof {
            lemma_keyed_map_contents(prev, role_key());
        }
        match self.find_role(role.id.as_str()) {
            Some(i) => {
                proof {
                    assert(prev[i as int] == self.roles@[i as int]@);
                    lemma_keyed_map_update(prev, role_key(), i as int, rv);
                }
                self.roles.set(i, role);
                assert(self.roles@.map_values(|r: Role| r@) =~= prev.update(i as int, rv));
            },
            None => {
                proof {
                    assert forall|j: int| 0 <= j < prev.len() implies role_key()(prev[j]) != role_key()(rv) by {
                        if role_key()(prev[j]) == role_key()(rv) {
                            assert(old(self).roles().contains_key(rv.id));
                        }
                    }
                    lemma_keyed_map_push(prev, role_key(), rv);
                }
                self.roles.push(role);
                assert(self.roles@.map_values(|r: Role| r@) =~= prev.push(rv));
            },
        }
    }

    /// Register a principal, replacing any principal with the same id.
    pub fn register_principal(&mut self, principal: Principal)
        requires
            old(self).wf(),
        ensures
            final(self).wf(),
            final(self).principals() == old(self).principals().insert(principal@.id, principal@),
            final(self).roles() == old(self).roles(),
    {
        let ghost prev = self.principals@.map_values(|p: Principal| p@);
        let ghost pv = principal@;
        proof {
            lemma_keyed_map_contents(prev, principal_key());
        }
        match self.find_principal(principal.id.as_str()) {
            Some(i) => {
                proof {
                    assert(prev[i as int] == self.principals@[i as int]@);
                    lemma_keyed_map_update(prev, principal_key(), i as int, pv);
                }
                self.principals.set(i, principal);
                assert(self.principals@.map_values(|p: Principal| p@) =~= prev.update(i as int, pv));
            },
            None => {
                proof {
                    assert forall|j: int| 0 <= j < prev.len() implies principal_key()(prev[j]) != principal_key()(pv) by {
                        if principal_key()(prev[j]) == principal_key()(pv) {
                            assert(old(self).principals().contains_key(pv.id));
                        }
                    }
                    lemma_keyed_map_push(prev, principal_key(), pv);
                }
                self.principals.push(principal);
                assert(self.principals@.map_values(|p: Principal| p@) =~= prev.push(pv));
            },
        }
    }

    fn replace_roles(&mut self, i: usize, roles: Vec<RoleId>)
        requires
            old(self).wf(),
            i < old(self).principals@.len(),
        ensures
            final(self).wf(),
            final(self).roles() == old(self).roles(),
            final(self).principals() == old(self).principals().insert(
                old(self).principals@[i as int].id@,
                PrincipalView { roles: roles@, ..old(self).principals@[i as int]@ },
            ),
    {
        let ghost prev = self.principals@.map_values(|p: Principal| p@);
        let old_p = &self.principals[i];
        let p = Principal {
            id: old_p.id.clone(),
            name: old_p.name.clone(),
            kind: old_p.kind,
            roles,
        };
        let ghost pv = p@;
        proof {
            assert(prev[i as int] == self.principals@[i as int]@);
            lemma_keyed_map_update(prev, principal_key(), i as int, pv);
        }
        self.principals.set(i, p);
        assert(self.principals@.map_values(|p: Principal| p@) =~= prev.update(i as int, pv));
    }

    /// Give a principal a role (no change if it already holds it).
    pub fn assign_role(&mut self, principal_id: &str, role_id: &str) -> (r: Result<(), PermissionError>)
        requires
            old(self).wf(),
        ensures
            final(self).wf(),
            final(self).roles() == old(self).roles(),
            match r {
                Ok(()) => {
                    &&& old(self).principals().contains_key(principal_id@)
                    &&& old(self).roles().contains_key(role_id@)
                    &&& final(self).principals().dom() == old(self).principals().dom()
                    &&& forall|k: Seq<char>| k != principal_id@ && #[trigger] old(self).principals().contains_key(k)
                        ==> final(self).principals()[k] == old(self).principals()[k]
                    &&& {
                        let p0 = old(self).principals()[principal_id@];
                        let p1 = final(self).principals()[principal_id@];
                        &&& p1.id == p0.id && p1.name == p0.name && p1.kind == p0.kind
                        &&& role_names(p1) == if role_names(p0).contains(role_id@) {
                            role_names(p0)
                        } else {
                            role_names(p0).push(role_id@)
                        }
                    }
                },
                Err(PermissionError::PrincipalNotFound(e)) => !old(self).principals().contains_key(principal_id@)
                    && e@ == principal_id@ && final(self).principals() == old(self).principals(),
                Err(PermissionError::RoleNotFound(e)) => old(self).principals().contains_key(principal_id@)
                    && !old(self).roles().contains_key(role_id@) && e@ == role_id@ && final(self).principals()
                    == old(self).principals(),
            },
    {
        let i = match self.find_principal(principal_id) {
            Some(i) => i,
            None => {
                return Err(PermissionError::PrincipalNotFound(principal_id.to_owned()));
            },
        };
        if self.find_role(role_id).is_none() {
            return Err(PermissionError::RoleNotFound(role_id.to_owned()));
        }
        let ghost old_roles = self.principals@[i as int].roles@;
        let mut j: usize = 0;
        let n = self.principals[i].roles.len();
        while j < n
            invariant
                self.wf(),
                *self == *old(self),
                i < self.principals@.len(),
                n == self.principals@[i as int].roles@.len(),
                old_roles == self.principals@[i as int].roles@,
                self.principals().contains_key(principal_id@),
                self.principals()[principal_id@] == self.principals@[i as int]@,
                self.roles().contains_key(role_id@),
                j <= n,
                forall|k: int| 0 <= k < j ==> old_roles[k]@ != role_id@,
            decreases n - j,
        {
            if str_eq(self.principals[i].roles[j].as_str(), role_id) {
                assert(strings_view(old_roles)[j as int] == role_id@);
                assert(role_names(self.principals()[principal_id@]).contains(role_id@));
                proof {
                    lemma_keyed_map_contents(self.principals@.map_values(|p: Principal| p@), principal_key());
                }
                return Ok(());
            }
            j = j + 1;
        }
        assert(!strings_view(old_roles).contains(role_id@)) by {
            if strings_view(old_roles).contains(role_id@) {
                let k = choose|k: int| 0 <= k < old_roles.len() && #[trigger] strings_view(old_roles)[k] == role_id@;
                assert(old_roles[k]@ == role_id@);
            }
        }
        let mut roles = copy_strings(&self.principals[i].roles);
        roles.push(role_id.to_owned());
        assert(roles@.map_values(|s: String| s@) =~= old_roles.map_values(|s: String| s@).push(role_id@));
        proof {
            lemma_keyed_map_contents(self.principals@.map_values(|p: Principal| p@), principal_key());
        }
        self.replace_roles(i, roles);
        Ok(())
    }

    /// Take a role away from a principal.
    pub fn revoke_role(&mut self, principal_id: &str, role_id: &str) -> (r: Result<(), PermissionError>)
        requires
            old(self).wf(),
        ensures
            final(self).wf(),
            final(self).roles() == old(self).roles(),
            match r {
                Ok(()) => {
                    &&& old(self).principals().contains_key(principal_id@)
                    &&& final(self).principals().dom() == old(self).principals().dom()
                    &&& forall|k: Seq<char>| k != principal_id@ && #[trigger] old(self).principals().contains_key(k)
                        ==> final(self).principals()[k] == old(self).principals()[k]
                    &&& {
                        let p0 = old(self).principals()[principal_id@];
                        let p1 = final(self).principals()[principal_id@];
                        &&& p1.id == p0.id && p1.name == p0.name && p1.kind == p0.kind
                        &&& role_names(p1) == role_names(p0).filter(|s: Seq<char>| s != role_id@)
                    }
                },
                Err(PermissionError::PrincipalNotFound(e)) => !old(self).principals().contains_key(principal_id@)
                    && e@ == principal_id@ && final(self).principals() == old(self).principals(),
                Err(_) => false,
            },
    {
        let i = match self.find_principal(principal_id) {
            Some(i) => i,
            None => {
                return Err(PermissionError::PrincipalNotFound(principal_id.to_owned()));
            },
        };
        let ghost all = self.principals@[i as int].roles@.map_values(|s: String| s@);
        let ghost p = |s: Seq<char>| s != role_id@;
        let mut kept: Vec<RoleId> = Vec::new();
        let mut j: usize = 0;
        let n = self.principals[i].roles.len();
        proof {
            crate::seq_facts::lemma_filter_take_zero(all, p);
        }
        while j < n
            invariant
                self.wf(),
                *self == *old(self),
                i < self.principals@.len(),
                n == self.principals@[i as int].roles@.len(),
                all == self.principals@[i as int].roles@.map_values(|s: String| s@),
                p == (|s: Seq<char>| s != role_id@),
                j <= n,
                kept@.map_values(|s: String| s@) == all.take(j as int).filter(p),
            decreases n - j,
        {
            proof {
                crate::seq_facts::lemma_filter_take_step(all, p, j as int);
            }
            if !str_eq(self.principals[i].roles[j].as_str(), role_id) {
                let ghost prev = kept@.map_values(|s: String| s@);
                kept.push(self.principals[i].roles[j].clone());
                assert(kept@.map_values(|s: String| s@) =~= prev.push(all[j as int]));
            }
            j = j + 1;
        }
        proof {
            crate::seq_facts::lemma_take_full(all);
            lemma_keyed_map_contents(self.principals@.map_values(|p: Principal| p@), principal_key());
        }
        self.replace_roles(i, kept);
        Ok(())
    }

    fn role_grants(&self, i: usize, permission: Permission, resource: &str) -> (b: bool)
        requires
            i < self.roles@.len(),
        ensures
            b == grants_allow(self.roles@[i as int]@.grants, permission, resource@),
    {
        let ghost gs = self.roles@[i as int]@.grants;
        let mut j: usize = 0;
        while j < self.roles[i].grants.len()
            invariant
                i < self.roles@.len(),
                gs == self.roles@[i as int]@.grants,
                j <= self.roles@[i as int].grants@.len(),
                forall|k: int| 0 <= k < j ==> !(gs[k].0 == permission && pattern_matches_spec(gs[k].1, resource@)),
            decreases self.roles@[i as int].grants@.len() - j,
        {
            let g = &self.roles[i].grants[j];
            if g.permission == permission && pattern_matches(g.resource.as_str(), resource) {
                assert(gs[j as int].0 == permission);
                return true;
            }
            j = j + 1;
        }
        false
    }

    /// Decide whether a principal may exercise a permission on a resource.
    pub fn check(&self, principal_id: &str, permission: Permission, resource: &str) -> (d: Decision)
        requires
            self.wf(),
        ensures
            (d == Decision::Allow) == self.allowed(principal_id@, permission, resource@),
    {
        let i = match self.find_principal(principal_id) {
            Some(i) => i,
            None => {
                return Decision::Deny;
            },
        };
        let ghost pv = self.principals@[i as int]@;
        let n = self.principals[i].roles.len();
        let mut j: usize = 0;
        while j < n
            invariant
                self.wf(),
                i < self.principals@.len(),
                pv == self.principals@[i as int]@,
                pv == self.principals()[principal_id@],
                self.principals().contains_key(principal_id@),
                n == pv.roles.len(),
                j <= n,
                forall|k: int| 0 <= k < j ==> !({
                    let role = #[trigger] pv.roles[k]@;
                    self.roles().contains_key(role) && grants_allow(self.roles()[role].grants, permission, resource@)
                }),
            decreases n - j,
        {
            match self.find_role(self.principals[i].roles[j].as_str()) {
                Some(ri) => {
                    if self.role_grants(ri, permission, resource) {
                        assert({
                            let role = pv.roles[j as int]@;
                            self.roles().contains_key(role) && grants_allow(self.roles()[role].grants, permission, resource@)
                        });
                        return Decision::Allow;
                    }
                },
                None => {},
            }
            j = j + 1;
        }
        Decision::Deny
    }

    /// Whether a principal may exercise a permission on a resource.
    pub fn is_allowed(&self, principal_id: &str, permission: Permission, resource: &str) -> (b: bool)
        requires
            self.wf(),
        ensures
            b == self.allowed(principal_id@, permission, resource@),
    {
        self.check(principal_id, permission, resource) == Decision::Allow
    }

    /// All principals, in registration order.
    pub fn list_principals(&self) -> (r: Vec<Principal>)
        ensures
            r@.map_values(|p: Principal| p@) == self.principal_seq(),
    {
        let mut out: Vec<Principal> = Vec::new();
        let mut i: usize = 0;
        while i < self.principals.len()
            invariant
                i <= self.principals@.len(),
                out@.map_values(|p: Principal| p@) == self.principal_seq().take(i as int),
            decreases self.principals@.len() - i,
        {
            let q = &self.principals[i];
            let c = Principal { id: q.id.clone(), name: q.name.clone(), kind: q.kind, roles: copy_strings(&q.roles) };
            let ghost prev = out@.map_values(|p: Principal| p@);
            let ghost cv = c@;
            out.push(c);
            assert(out@.map_values(|p: Principal| p@) =~= prev.push(cv));
            assert(out@.map_values(|p: Principal| p@) =~= self.principal_seq().take(i + 1));
            i = i + 1;
        }
        assert(self.principal_seq().take(i as int) =~= self.principal_seq());
        out
    }

    /// The principals in registration order.
    pub closed spec fn principal_seq(&self) -> Seq<PrincipalView> {
        self.principals@.map_values(|p: Principal| p@)
    }
}

/// A principal without roles is denied everything, and an unknown
/// principal is denied everything.
pub proof fn lemma_no_roles_no_access(e: PermissionEngine, principal: Seq<char>, permission: Permission, resource: Seq<char>)
    requires
        !e.principals().contains_key(principal) || e.principals()[principal].roles.len() == 0,
    ensures
        !e.allowed(principal, permission, resource),
{
}

/// The wildcard pattern matches every resource.
pub proof fn lemma_wildcard_matches_all(resource: Seq<char>)
    ensures
        pattern_matches_spec("*"@, resource),
{
    reveal_strlit("*");
    assert(resource.subrange(0, 0) =~= "*"@.drop_last());
}

} // verus!
