//! The secret manager: versioned secrets with one active version each.
//!
//! Every `put` appends a new version (numbered from 1, in order) and makes
//! it the active one; a rollback makes an earlier version active again.

use vstd::prelude::*;
use crate::sys::now_unix_nanos;
use crate::table::{Record, Table, models};
use crate::text::{decimal, decimal_text, push_str};

verus! {

/// Secret identifier (e.g. `db.password`).
pub type SecretId = String;

/// Version number of a secret.
pub type SecretVersion = u64;

/// One version of a secret.
#[derive(Debug, Clone)]
pub struct SecretEntry {
    /// Version number.
    pub version: SecretVersion,
    /// Stored value.
    pub ciphertext: Vec<u8>,
    /// Creation time (unix nanoseconds).
    pub created_at: i64,
    /// Whether this is the active version.
    pub active: bool,
}

/// A version as values.
pub struct EntryView {
    pub version: u64,
    pub ciphertext: Seq<u8>,
    pub created_at: i64,
    pub active: bool,
}

impl View for SecretEntry {
    type V = EntryView;

    open spec fn view(&self) -> EntryView {
        EntryView {
            version: self.version,
            ciphertext: self.ciphertext@,
            created_at: self.created_at,
            active: self.active,
        }
    }
}

impl SecretEntry {
    /// An independent copy.
    pub fn duplicate(&self) -> (e: SecretEntry)
        ensures
            e@ == self@,
    {
        SecretEntry {
            version: self.version,
            ciphertext: self.ciphertext.clone(),
            created_at: self.created_at,
            active: self.active,
        }
    }
}

/// The versions as values.
pub open spec fn entry_views(s: Seq<SecretEntry>) -> Seq<EntryView> {
    s.map_values(|e: SecretEntry| e@)
}

/// The versions of one secret.
#[derive(Debug)]
pub struct SecretVersions {
    /// Secret id.
    pub id: String,
    /// Its versions, oldest first.
    pub versions: Vec<SecretEntry>,
}

fn copy_entries(v: &Vec<SecretEntry>) -> (r: Vec<SecretEntry>)
    ensures
        entry_views(r@) == entry_views(v@),
{
    let mut r: Vec<SecretEntry> = Vec::new();
    let mut i: usize = 0;
    while i < v.len()
        invariant
            i <= v@.len(),
            entry_views(r@) == entry_views(v@).take(i as int),
        decreases v@.len() - i,
    {
        let e = v[i].duplicate();
        let ghost before = entry_views(r@);
        r.push(e);
        assert(entry_views(r@) =~= before.push(v@[i as int]@));
        assert(entry_views(v@).take(i + 1) =~= entry_views(v@).take(i as int).push(v@[i as int]@));
        i = i + 1;
    }
    assert(entry_views(v@).take(v@.len() as int) =~= entry_views(v@));
    r
}

impl Record for SecretVersions {
    type Model = (Seq<char>, Seq<EntryView>);

    open spec fn model(&self) -> (Seq<char>, Seq<EntryView>) {
        (self.id@, entry_views(self.versions@))
    }

    open spec fn model_key(m: (Seq<char>, Seq<EntryView>)) -> Seq<char> {
        m.0
    }

    fn key(&self) -> (k: &str) {
        self.id.as_str()
    }

    fn copy(&self) -> (r: SecretVersions) {
        SecretVersions { id: self.id.clone(), versions: copy_entries(&self.versions) }
    }
}

/// Error of a secret operation.
#[derive(Debug)]
pub enum SecretError {
    /// No secret has this id.
    NotFound(SecretId),
    /// The secret has no such version.
    VersionNotFound {
        /// Secret id.
        id: SecretId,
        /// Version requested.
        version: SecretVersion,
    },
}

impl SecretError {
    /// The error message.
    pub fn to_string(&self) -> (s: String)
        ensures
            s@ == match self {
                SecretError::NotFound(id) => "secret not found: "@ + id@,
                SecretError::VersionNotFound { id, version } => "secret "@ + id@ + " version "@ + decimal_text(
                    *version as nat,
                ) + " not found"@,
            },
    {
        match self {
            SecretError::NotFound(id) => {
                let mut s = "secret not found: ".to_owned();
                push_str(&mut s, id.as_str());
                s
            },
            SecretError::VersionNotFound { id, version } => {
                let mut s = "secret ".to_owned();
                push_str(&mut s, id.as_str());
                push_str(&mut s, " version ");
                let v = decimal(*version);
                push_str(&mut s, v.as_str());
                push_str(&mut s, " not found");
                s
            },
        }
    }
}

/// Whether the versions are numbered 1, 2, ... in order, and exactly one
/// of them is active.
pub open spec fn well_versioned(vs: Seq<EntryView>) -> bool {
    &&& forall|i: int| 0 <= i < vs.len() ==> #[trigger] vs[i].version == i + 1
    &&& vs.len() > 0 ==> exists|i: int| 0 <= i < vs.len() && #[trigger] vs[i].active
    &&& forall|i: int, j: int| 0 <= i < vs.len() && 0 <= j < vs.len() && #[trigger] vs[i].active
        && #[trigger] vs[j].active ==> i == j
}

/// The versions with every one inactive.
pub open spec fn deactivated(vs: Seq<EntryView>) -> Seq<EntryView> {
    vs.map_values(|e: EntryView| EntryView { active: false, ..e })
}

/// The versions with only version `v` active.
pub open spec fn activated(vs: Seq<EntryView>, v: u64) -> Seq<EntryView> {
    vs.map_values(|e: EntryView| EntryView { active: e.version == v, ..e })
}

/// The secret manager.
#[derive(Debug)]
pub struct SecretManager {
    secrets: Table<SecretVersions>,
}

impl Default for SecretManager {
    fn default() -> (m: SecretManager)
        ensures
            m.wf(),
            m.secrets() == Map::<Seq<char>, Seq<EntryView>>::empty(),
    {
        SecretManager::new()
    }
}

impl SecretManager {
    /// The versions of every secret, by id.
    pub closed spec fn secrets(&self) -> Map<Seq<char>, Seq<EntryView>> {
        Map::new(|k: Seq<char>| self.secrets.map().contains_key(k), |k: Seq<char>| self.secrets.map()[k].1)
    }

    /// The secret ids in the order they were first stored.
    pub closed spec fn id_seq(&self) -> Seq<Seq<char>> {
        self.secrets.seq().map_values(|m: (Seq<char>, Seq<EntryView>)| m.0)
    }

    /// The versions of a secret; none when it is not stored.
    pub open spec fn versions_of(&self, id: Seq<char>) -> Seq<EntryView> {
        if self.secrets().contains_key(id) {
            self.secrets()[id]
        } else {
            Seq::empty()
        }
    }

    /// Well-formedness: ids are distinct and every secret is well
    /// versioned.
    pub closed spec fn wf(&self) -> bool {
        &&& self.secrets.wf()
        &&& forall|k: Seq<char>| #[trigger] self.secrets.map().contains_key(k) ==> self.secrets.map()[k].0 == k
            && well_versioned(self.secrets.map()[k].1)
    }

    /// An empty manager.
    pub fn new() -> (m: SecretManager)
        ensures
            m.wf(),
            m.secrets() == Map::<Seq<char>, Seq<EntryView>>::empty(),
    {
        let m = SecretManager { secrets: Table::new() };
        assert(m.secrets() =~= Map::<Seq<char>, Seq<EntryView>>::empty());
        m
    }

    /// Number of stored secrets.
    pub fn secret_count(&self) -> (n: usize)
        requires
            self.wf(),
        ensures
            n == self.secrets().len(),
    {
        assert(self.secrets().dom() =~= self.secrets.map().dom());
        self.secrets.len()
    }

    fn versions(&self, id: &str) -> (r: Option<usize>)
        requires
            self.wf(),
        ensures
            match r {
                Some(i) => i < self.secrets.seq().len() && self.secrets().contains_key(id@)
                    && self.secrets.seq()[i as int] == (id@, self.secrets()[id@]),
                None => !self.secrets().contains_key(id@),
            },
    {
        self.secrets.find(id)
    }

    /// Store a new version of a secret at time `now` and make it the
    /// active one; its version number.
    pub fn put_at(&mut self, id: &str, value: Vec<u8>, now: i64) -> (v: SecretVersion)
        requires
            old(self).wf(),
            old(self).versions_of(id@).len() < u64::MAX,
        ensures
            final(self).wf(),
            v == old(self).versions_of(id@).len() + 1,
            final(self).secrets() == old(self).secrets().insert(
                id@,
                deactivated(old(self).versions_of(id@)).push(
                    EntryView { version: v, ciphertext: value@, created_at: now, active: true },
                ),
            ),
    {
        let mut versions: Vec<SecretEntry> = match self.versions(id) {
            Some(i) => copy_entries(&self.secrets.at(i).versions),
            None => Vec::new(),
        };
        let ghost old_vs = old(self).versions_of(id@);
        assert(entry_views(versions@) =~= old_vs);
        let mut j: usize = 0;
        while j < versions.len()
            invariant
                j <= versions@.len(),
                versions@.len() == old_vs.len(),
                forall|q: int| 0 <= q < j ==> #[trigger] versions@[q]@ == (EntryView { active: false, ..old_vs[q] }),
                forall|q: int| j <= q < versions@.len() ==> #[trigger] versions@[q]@ == old_vs[q],
            decreases versions@.len() - j,
        {
            let mut e = versions[j].duplicate();
            e.active = false;
            versions.set(j, e);
            j = j + 1;
        }
        let v: u64 = (versions.len() as u64) + 1;
        let entry = SecretEntry { version: v, ciphertext: value, created_at: now, active: true };
        let ghost ev = entry@;
        versions.push(entry);
        let ghost nv = deactivated(old_vs).push(ev);
        assert(entry_views(versions@) =~= nv);
        proof {
            assert forall|i: int| 0 <= i < nv.len() implies #[trigger] nv[i].version == i + 1 by {
                if i < old_vs.len() {
                    assert(old_vs[i].version == i + 1);
                }
            }
            assert(nv[nv.len() - 1].active);
            assert forall|i: int, k: int| 0 <= i < nv.len() && 0 <= k < nv.len() && #[trigger] nv[i].active
                && #[trigger] nv[k].active implies i == k by {
                if i < old_vs.len() {
                    assert(!nv[i].active);
                }
                if k < old_vs.len() {
                    assert(!nv[k].active);
                }
            }
        }
        self.secrets.upsert(SecretVersions { id: id.to_owned(), versions });
        assert(self.secrets() =~= old(self).secrets().insert(id@, nv));
        v
    }

    /// Store a new version of a secret now; its version number.
    pub fn put(&mut self, id: &str, value: Vec<u8>) -> (v: SecretVersion)
        requires
            old(self).wf(),
            old(self).versions_of(id@).len() < u64::MAX,
        ensures
            final(self).wf(),
            v == old(self).versions_of(id@).len() + 1,
            final(self).secrets().dom() == old(self).secrets().dom().insert(id@),
            final(self).versions_of(id@).len() == v,
            final(self).versions_of(id@)[v - 1].ciphertext == value@,
            final(self).versions_of(id@)[v - 1].active,
    {
        let ghost val = value@;
        let v = self.put_at(id, value, now_unix_nanos());
        assert(self.secrets().dom() =~= old(self).secrets().dom().insert(id@));
        v
    }

    /// The active version of a secret.
    pub fn get(&self, id: &str) -> (r: Option<SecretEntry>)
        requires
            self.wf(),
        ensures
            match r {
                Some(e) => exists|i: int|
                    0 <= i < self.versions_of(id@).len() && #[trigger] self.versions_of(id@)[i] == e@ && e@.active,
                None => forall|i: int| 0 <= i < self.versions_of(id@).len() ==> !#[trigger] self.versions_of(id@)[i].active,
            },
    {
        match self.versions(id) {
            Some(k) => {
                let vs = &self.secrets.at(k).versions;
                let ghost evs = self.versions_of(id@);
                assert(entry_views(vs@) == evs);
                let mut i: usize = 0;
                while i < vs.len()
                    invariant
                        i <= vs@.len(),
                        entry_views(vs@) == evs,
                        evs == self.versions_of(id@),
                        forall|q: int| 0 <= q < i ==> !#[trigger] evs[q].active,
                    decreases vs@.len() - i,
                {
                    assert(evs[i as int] == vs@[i as int]@);
                    if vs[i].active {
                        assert(self.versions_of(id@)[i as int] == vs@[i as int]@);
                        return Some(vs[i].duplicate());
                    }
                    i = i + 1;
                }
                None
            },
            None => None,
        }
    }

    /// A given version of a secret.
    pub fn get_version(&self, id: &str, version: SecretVersion) -> (r: Option<SecretEntry>)
        requires
            self.wf(),
        ensures
            match r {
                Some(e) => 1 <= version <= self.versions_of(id@).len() && e@ == self.versions_of(id@)[version - 1],
                None => !(1 <= version <= self.versions_of(id@).len()),
            },
    {
        match self.versions(id) {
            Some(k) => {
                let vs = &self.secrets.at(k).versions;
                let ghost evs = self.versions_of(id@);
                assert(entry_views(vs@) == evs);
                let mut i: usize = 0;
                while i < vs.len()
                    invariant
                        i <= vs@.len(),
                        entry_views(vs@) == evs,
                        evs == self.versions_of(id@),
                        well_versioned(evs),
                        forall|q: int| 0 <= q < i ==> #[trigger] evs[q].version != version,
                    decreases vs@.len() - i,
                {
                    assert(evs[i as int] == vs@[i as int]@);
                    if vs[i].version == version {
                        assert(evs[i as int].version == i + 1);
                        assert(self.versions_of(id@)[version - 1] == vs@[i as int]@);
                        return Some(vs[i].duplicate());
                    }
                    i = i + 1;
                }
                proof {
                    if 1 <= version <= evs.len() {
                        assert(evs[version - 1].version == version);
                    }
                }
                None
            },
            None => None,
        }
    }

    /// The ids of all secrets, in the order they were first stored.
    pub fn list(&self) -> (r: Vec<SecretId>)
        requires
            self.wf(),
        ensures
            r@.map_values(|s: String| s@) == self.id_seq(),
    {
        let all = self.secrets.all();
        let ghost ids = self.id_seq();
        let mut out: Vec<SecretId> = Vec::new();
        let mut i: usize = 0;
        while i < all.len()
            invariant
                i <= all@.len(),
                models(all@) == self.secrets.seq(),
                ids == self.id_seq(),
                ids.len() == all@.len(),
                out@.map_values(|s: String| s@) == ids.take(i as int),
            decreases all@.len() - i,
        {
            assert(ids[i as int] == all@[i as int].id@) by {
                assert(models(all@)[i as int] == all@[i as int].model());
            }
            let ghost before = out@.map_values(|s: String| s@);
            let x = all[i].id.clone();
            assert(x@ == ids[i as int]);
            out.push(x);
            assert(out@.map_values(|s: String| s@) =~= before.push(ids[i as int]));
            assert(ids.take(i + 1) =~= ids.take(i as int).push(ids[i as int]));
            i = i + 1;
        }
        assert(ids.take(all@.len() as int) =~= ids);
        out
    }

    /// Delete a secret with all its versions; whether it was stored.
    pub fn delete(&mut self, id: &str) -> (removed: bool)
        requires
            old(self).wf(),
        ensures
            final(self).wf(),
            removed == old(self).secrets().contains_key(id@),
            final(self).secrets() == old(self).secrets().remove(id@),
    {
        let r = self.secrets.remove(id);
        assert(self.secrets() =~= old(self).secrets().remove(id@));
        r.is_some()
    }

    /// Make version `version` the active one.
    pub fn rollback(&mut self, id: &str, version: SecretVersion) -> (r: Result<(), SecretError>)
        requires
            old(self).wf(),
        ensures
            final(self).wf(),
            match r {
                Ok(()) => {
                    &&& 1 <= version <= old(self).versions_of(id@).len()
                    &&& final(self).secrets() == old(self).secrets().insert(
                        id@,
                        activated(old(self).versions_of(id@), version),
                    )
                },
                Err(SecretError::NotFound(n)) => n@ == id@ && !old(self).secrets().contains_key(id@)
                    && final(self).secrets() == old(self).secrets(),
                Err(SecretError::VersionNotFound { id: n, version: w }) => {
                    &&& n@ == id@ && w == version
                    &&& old(self).secrets().contains_key(id@)
                    &&& !(1 <= version <= old(self).versions_of(id@).len())
                    &&& final(self).secrets() == old(self).secrets()
                },
            },
    {
        let k = match self.versions(id) {
            Some(k) => k,
            None => {
                return Err(SecretError::NotFound(id.to_owned()));
            },
        };
        let mut versions = copy_entries(&self.secrets.at(k).versions);
        let ghost old_vs = old(self).versions_of(id@);
        assert(entry_views(versions@) == old_vs);
        if version == 0 || version > versions.len() as u64 {
            return Err(SecretError::VersionNotFound { id: id.to_owned(), version });
        }
        let mut j: usize = 0;
        while j < versions.len()
            invariant
                j <= versions@.len(),
                versions@.len() == old_vs.len(),
                forall|q: int| 0 <= q < j ==> #[trigger] versions@[q]@ == (EntryView {
                    active: old_vs[q].version == version,
                    ..old_vs[q]
                }),
                forall|q: int| j <= q < versions@.len() ==> #[trigger] versions@[q]@ == old_vs[q],
            decreases versions@.len() - j,
        {
            let mut e = versions[j].duplicate();
            e.active = e.version == version;
            versions.set(j, e);
            j = j + 1;
        }
        let ghost nv = activated(old_vs, version);
        assert(entry_views(versions@) =~= nv);
        proof {
            assert(well_versioned(old_vs));
            assert forall|i: int| 0 <= i < nv.len() implies #[trigger] nv[i].version == i + 1 by {
                assert(old_vs[i].version == i + 1);
            }
            assert(old_vs[version - 1].version == version);
            assert(nv[version - 1].active);
            assert forall|i: int, q: int| 0 <= i < nv.len() && 0 <= q < nv.len() && #[trigger] nv[i].active
                && #[trigger] nv[q].active implies i == q by {
                assert(old_vs[i].version == i + 1);
                assert(old_vs[q].version == q + 1);
            }
        }
        self.secrets.set_at(k, SecretVersions { id: id.to_owned(), versions });
        assert(self.secrets() =~= old(self).secrets().insert(id@, nv));
        Ok(())
    }

    /// Number of versions of a secret.
    pub fn version_count(&self, id: &str) -> (n: usize)
        requires
            self.wf(),
        ensures
            n == self.versions_of(id@).len(),
    {
        match self.versions(id) {
            Some(k) => self.secrets.at(k).versions.len(),
            None => 0,
        }
    }
}

/// Every stored secret has exactly one active version, and version `v`
/// sits at position `v - 1`.
pub proof fn lemma_one_active_version(m: SecretManager, id: Seq<char>)
    requires
        m.wf(),
        m.secrets().contains_key(id),
    ensures
        well_versioned(m.secrets()[id]),
{
}


/// A read gives back what a write wrote: once `put_at` has stored
/// `ciphertext` as version `v` of secret `id` at time `now` (moving the
/// manager from `before` to `after`), the one active version of `id` is
/// that entry, so `get` returns it.
pub proof fn lemma_get_after_put(
    before: SecretManager,
    after: SecretManager,
    id: Seq<char>,
    ciphertext: Seq<u8>,
    v: u64,
    now: i64,
)
    requires
        after.secrets() == before.secrets().insert(
            id,
            deactivated(before.versions_of(id)).push(
                EntryView { version: v, ciphertext, created_at: now, active: true },
            ),
        ),
    ensures
        after.versions_of(id).len() == before.versions_of(id).len() + 1,
        after.versions_of(id).last() == (EntryView { version: v, ciphertext, created_at: now, active: true }),
        forall|i: int|
            0 <= i < after.versions_of(id).len() && (#[trigger] after.versions_of(id)[i]).active ==> after.versions_of(
                id,
            )[i] == (EntryView { version: v, ciphertext, created_at: now, active: true }),
{
    let vs = after.versions_of(id);
    let n = before.versions_of(id).len() as int;
    assert forall|i: int| 0 <= i < vs.len() && (#[trigger] vs[i]).active implies vs[i] == (EntryView {
        version: v,
        ciphertext,
        created_at: now,
        active: true,
    }) by {
        if i < n {
            assert(vs[i] == deactivated(before.versions_of(id))[i]);
        }
    }
}

} // verus!
