//! The session store: live sessions by id, and each user's sessions in
//! creation order.

use vstd::prelude::*;
use crate::clock::{add_nanos, clamp_i64};
use crate::index::{CustomerIds, CustomerIdsView, forget_id, ids_for, ids_of, index_push, record_id, without_id};
use crate::sys::{new_uuid, now_unix_nanos};
use crate::table::{Record, Table, models, picked};

verus! {

/// Unique session id.
pub type SessionId = String;

/// Default session lifetime: one hour, in nanoseconds.
pub const DEFAULT_SESSION_TTL_NANOS: u64 = 3_600_000_000_000;

/// A session.
#[derive(Debug)]
pub struct Session {
    /// Unique id.
    pub id: SessionId,
    /// The user it belongs to.
    pub user_id: String,
    /// Creation time (unix nanoseconds).
    pub created_at: i64,
    /// Last activity (unix nanoseconds).
    pub last_active: i64,
    /// Whether it is active.
    pub active: bool,
    /// Client IP or device fingerprint.
    pub client: Option<String>,
}

/// A session as values.
pub struct SessionView {
    pub id: Seq<char>,
    pub user_id: Seq<char>,
    pub created_at: i64,
    pub last_active: i64,
    pub active: bool,
    pub client: Option<Seq<char>>,
}

impl View for Session {
    type V = SessionView;

    open spec fn view(&self) -> SessionView {
        SessionView {
            id: self.id@,
            user_id: self.user_id@,
            created_at: self.created_at,
            last_active: self.last_active,
            active: self.active,
            client: match self.client {
                Some(c) => Some(c@),
                None => None,
            },
        }
    }
}

impl Session {
    /// An independent copy.
    pub fn duplicate(&self) -> (s: Session)
        ensures
            s@ == self@,
    {
        Session {
            id: self.id.clone(),
            user_id: self.user_id.clone(),
            created_at: self.created_at,
            last_active: self.last_active,
            active: self.active,
            client: match &self.client {
                Some(c) => Some(c.clone()),
                None => None,
            },
        }
    }
}

impl Record for Session {
    type Model = SessionView;

    open spec fn model(&self) -> SessionView {
        self@
    }

    open spec fn model_key(m: SessionView) -> Seq<char> {
        m.id
    }

    fn key(&self) -> (k: &str) {
        self.id.as_str()
    }

    fn copy(&self) -> (r: Session) {
        self.duplicate()
    }
}

/// Whether a session was last active before `cutoff`.
pub open spec fn older_than(cutoff: int) -> spec_fn(SessionView) -> bool {
    |s: SessionView| s.last_active < cutoff
}

/// The cut-off time of reaping at `now`: `max_age_nanos` earlier.
pub open spec fn reap_cutoff(max_age_nanos: u64, now: i64) -> int {
    clamp_i64(now - clamp_i64(max_age_nanos as int)) as int
}

/// The session store.
#[derive(Debug)]
pub struct SessionStore {
    sessions: Table<Session>,
    by_user: Table<CustomerIds>,
    /// Default session lifetime in nanoseconds.
    pub default_ttl_nanos: u64,
}

impl Default for SessionStore {
    fn default() -> (s: SessionStore)
        ensures
            s.wf(),
            s.sessions() == Map::<Seq<char>, SessionView>::empty(),
            s.default_ttl() == DEFAULT_SESSION_TTL_NANOS,
    {
        SessionStore::new()
    }
}

impl SessionStore {
    /// The sessions by id.
    pub open spec fn sessions(&self) -> Map<Seq<char>, SessionView> {
        self.session_table().map()
    }

    /// The session table.
    pub closed spec fn session_table(&self) -> Table<Session> {
        self.sessions
    }

    /// The session ids of each user, in creation order.
    pub closed spec fn user_index(&self) -> Map<Seq<char>, CustomerIdsView> {
        self.by_user.map()
    }

    /// The default session lifetime in nanoseconds.
    pub closed spec fn default_ttl(&self) -> u64 {
        self.default_ttl_nanos
    }

    /// Well-formedness: both tables have distinct keys.
    pub closed spec fn wf(&self) -> bool {
        self.sessions.wf() && self.by_user.wf()
    }

    /// An empty store with a one-hour default lifetime.
    pub fn new() -> (s: SessionStore)
        ensures
            s.wf(),
            s.sessions() == Map::<Seq<char>, SessionView>::empty(),
            s.user_index() == Map::<Seq<char>, CustomerIdsView>::empty(),
            s.default_ttl() == DEFAULT_SESSION_TTL_NANOS,
    {
        SessionStore { sessions: Table::new(), by_user: Table::new(), default_ttl_nanos: DEFAULT_SESSION_TTL_NANOS }
    }

    /// Number of sessions.
    pub fn session_count(&self) -> (n: usize)
        requires
            self.wf(),
        ensures
            n == self.sessions().len(),
    {
        self.sessions.len()
    }

    /// Create an active session with a fresh id for a user, now.
    pub fn create(&mut self, user_id: &str, client: Option<String>) -> (s: Session)
        requires
            old(self).wf(),
        ensures
            final(self).wf(),
            s@.id.len() == 36,
            s@.user_id == user_id@,
            s@.created_at == s@.last_active,
            s@.active,
            s@.client == (match client {
                Some(c) => Some(c@),
                None => None,
            }),
            final(self).sessions() == old(self).sessions().insert(s@.id, s@),
            final(self).user_index() == index_push(old(self).user_index(), user_id@, s@.id),
            final(self).default_ttl() == old(self).default_ttl(),
    {
        let id = new_uuid();
        let now = now_unix_nanos();
        let session = Session { id: id.clone(), user_id: user_id.to_owned(), created_at: now, last_active: now, active: true, client };
        let out = session.duplicate();
        self.sessions.upsert(session);
        record_id(&mut self.by_user, user_id, id.as_str());
        out
    }

    fn update(&mut self, i: usize, s: Session)
        requires
            old(self).wf(),
            i < old(self).session_table().seq().len(),
            s@.id == old(self).session_table().seq()[i as int].id,
        ensures
            final(self).wf(),
            final(self).sessions() == old(self).sessions().insert(s@.id, s@),
            final(self).session_table().seq() == old(self).session_table().seq().update(i as int, s@),
            final(self).user_index() == old(self).user_index(),
            final(self).default_ttl_nanos == old(self).default_ttl_nanos,
    {
        self.sessions.set_at(i, s);
    }

    /// Mark a session inactive (logout); whether it exists.
    pub fn revoke(&mut self, session_id: &str) -> (found: bool)
        requires
            old(self).wf(),
        ensures
            final(self).wf(),
            found == old(self).sessions().contains_key(session_id@),
            found ==> final(self).sessions() == old(self).sessions().insert(
                session_id@,
                SessionView { active: false, ..old(self).sessions()[session_id@] },
            ),
            !found ==> final(self).sessions() == old(self).sessions(),
            final(self).user_index() == old(self).user_index(),
    {
        match self.sessions.find(session_id) {
            Some(i) => {
                let mut s = self.sessions.at(i).duplicate();
                s.active = false;
                self.update(i, s);
                true
            },
            None => false,
        }
    }

    /// Mark every session recorded for a user inactive; how many there
    /// were (an id recorded twice counts twice).
    pub fn revoke_all_for_user(&mut self, user_id: &str) -> (count: usize)
        requires
            old(self).wf(),
        ensures
            final(self).wf(),
            final(self).user_index() == old(self).user_index(),
            count == picked(old(self).sessions(), ids_for(old(self).user_index(), user_id@)).len(),
            final(self).sessions().dom() == old(self).sessions().dom(),
            forall|k: Seq<char>| #[trigger] old(self).sessions().contains_key(k) ==> final(self).sessions()[k] == (
            if ids_for(old(self).user_index(), user_id@).contains(k) {
                SessionView { active: false, ..old(self).sessions()[k] }
            } else {
                old(self).sessions()[k]
            }),
    {
        let ids = ids_of(&self.by_user, user_id);
        let ghost ks = ids@.map_values(|s: String| s@);
        let mut count: usize = 0;
        let mut j: usize = 0;
        while j < ids.len()
            invariant
                self.wf(),
                j <= ids@.len(),
                ks == ids@.map_values(|s: String| s@),
                ks == ids_for(old(self).user_index(), user_id@),
                self.user_index() == old(self).user_index(),
                count == picked(old(self).sessions(), ks.take(j as int)).len(),
                count <= j,
                self.sessions().dom() == old(self).sessions().dom(),
                forall|k: Seq<char>| #[trigger] old(self).sessions().contains_key(k) ==> self.sessions()[k] == (
                if ks.take(j as int).contains(k) {
                    SessionView { active: false, ..old(self).sessions()[k] }
                } else {
                    old(self).sessions()[k]
                }),
            decreases ids@.len() - j,
        {
            let ghost before = self.sessions();
            assert(ks.take(j + 1).drop_last() =~= ks.take(j as int));
            assert(ks.take(j + 1).last() == ks[j as int]);
            assert(ks[j as int] == ids@[j as int]@);
            match self.sessions.find(ids[j].as_str()) {
                Some(i) => {
                    let mut s = self.sessions.at(i).duplicate();
                    s.active = false;
                    self.update(i, s);
                    count = count + 1;
                },
                None => {},
            }
            proof {
                assert forall|k: Seq<char>| #[trigger] old(self).sessions().contains_key(k) implies self.sessions()[k] == (
                if ks.take(j + 1).contains(k) {
                    SessionView { active: false, ..old(self).sessions()[k] }
                } else {
                    old(self).sessions()[k]
                }) by {
                    if ks.take(j + 1).contains(k) && !ks.take(j as int).contains(k) {
                        let q = choose|q: int| 0 <= q < ks.take(j + 1).len() && #[trigger] ks.take(j + 1)[q] == k;
                        if q < j {
                            assert(ks.take(j as int)[q] == k);
                        }
                    }
                    if ks.take(j as int).contains(k) {
                        let q = choose|q: int| 0 <= q < ks.take(j as int).len() && #[trigger] ks.take(j as int)[q] == k;
                        assert(ks.take(j + 1)[q] == k);
                    }
                }
            }
            j = j + 1;
        }
        assert(ks.take(ids@.len() as int) =~= ks);
        count
    }

    /// Mark a session active now; whether it exists.
    pub fn touch(&mut self, session_id: &str) -> (found: bool)
        requires
            old(self).wf(),
        ensures
            final(self).wf(),
            found == old(self).sessions().contains_key(session_id@),
            found ==> final(self).sessions().dom() == old(self).sessions().dom() && {
                let o = old(self).sessions()[session_id@];
                let n = final(self).sessions()[session_id@];
                n == SessionView { last_active: n.last_active, ..o }
            } && forall|k: Seq<char>| k != session_id@ && #[trigger] old(self).sessions().contains_key(k)
                ==> final(self).sessions()[k] == old(self).sessions()[k],
            !found ==> final(self).sessions() == old(self).sessions(),
            final(self).user_index() == old(self).user_index(),
    {
        match self.sessions.find(session_id) {
            Some(i) => {
                let mut s = self.sessions.at(i).duplicate();
                s.last_active = now_unix_nanos();
                self.update(i, s);
                proof {
                    self.sessions.lemma_map();
                }
                true
            },
            None => false,
        }
    }

    /// The session with this id.
    pub fn get(&self, session_id: &str) -> (r: Option<Session>)
        requires
            self.wf(),
        ensures
            match r {
                Some(s) => self.sessions().contains_key(session_id@) && s@ == self.sessions()[session_id@],
                None => !self.sessions().contains_key(session_id@),
            },
    {
        self.sessions.get(session_id)
    }

    /// The sessions recorded for a user that still exist, in creation
    /// order.
    pub fn list_for_user(&self, user_id: &str) -> (r: Vec<Session>)
        requires
            self.wf(),
        ensures
            models(r@) == picked(self.sessions(), ids_for(self.user_index(), user_id@)),
    {
        let ids = ids_of(&self.by_user, user_id);
        self.sessions.pick(&ids)
    }

    /// The active sessions, in creation order.
    pub fn list_active(&self) -> (r: Vec<Session>)
        ensures
            models(r@) == self.session_table().seq().filter(|s: SessionView| s.active),
    {
        let all = self.sessions.all();
        let ghost seq = self.session_table().seq();
        let ghost p = |s: SessionView| s.active;
        let mut out: Vec<Session> = Vec::new();
        let mut i: usize = 0;
        proof {
            crate::seq_facts::lemma_filter_take_zero(seq, p);
        }
        while i < all.len()
            invariant
                i <= all@.len(),
                models(all@) == seq,
                p == (|s: SessionView| s.active),
                models(out@) == seq.take(i as int).filter(p),
            decreases all@.len() - i,
        {
            proof {
                crate::seq_facts::lemma_filter_take_step(seq, p, i as int);
            }
            assert(seq[i as int] == all@[i as int]@);
            if all[i].active {
                let s = all[i].duplicate();
                let ghost before = models(out@);
                out.push(s);
                assert(models(out@) =~= before.push(seq[i as int]));
            }
            i = i + 1;
        }
        proof {
            crate::seq_facts::lemma_take_full(seq);
        }
        out
    }

    /// Remove the sessions last active more than `max_age_nanos` before
    /// `now`, from the store and from their user's list; how many were
    /// removed.
    pub fn reap_expired_at(&mut self, max_age_nanos: u64, now: i64) -> (removed: usize)
        requires
            old(self).wf(),
        ensures
            final(self).wf(),
            removed == old(self).session_table().seq().filter(older_than(reap_cutoff(max_age_nanos, now))).len(),
            forall|k: Seq<char>| #[trigger] final(self).sessions().contains_key(k) <==> (old(self).sessions().contains_key(k)
                && !older_than(reap_cutoff(max_age_nanos, now))(old(self).sessions()[k])),
            forall|k: Seq<char>| #[trigger] final(self).sessions().contains_key(k) ==> final(self).sessions()[k] == old(
                self,
            ).sessions()[k],
    {
        let age: i64 = if max_age_nanos <= 9_223_372_036_854_775_807 {
            max_age_nanos as i64
        } else {
            9_223_372_036_854_775_807
        };
        let cutoff = match now.checked_sub(age) {
            Some(c) => c,
            None => i64::MIN,
        };
        assert(cutoff == reap_cutoff(max_age_nanos, now));
        let all = self.sessions.all();
        let ghost seq = old(self).session_table().seq();
        let ghost p = older_than(cutoff as int);
        let ghost orig = old(self).sessions();
        let mut removed: usize = 0;
        let mut i: usize = 0;
        proof {
            crate::seq_facts::lemma_filter_take_zero(seq, p);
            old(self).sessions.lemma_map();
            old(self).sessions.lemma_distinct();
            assert forall|j: int| 0 <= j < seq.len() implies #[trigger] orig[seq[j].id] == seq[j] by {
                assert(orig[Session::model_key(seq[j])] == seq[j]);
            }
        }
        while i < all.len()
            invariant
                self.wf(),
                i <= all@.len(),
                models(all@) == seq,
                seq == old(self).session_table().seq(),
                orig == old(self).sessions(),
                crate::keyed::keys_distinct(seq, crate::table::record_key::<Session>()),
                forall|j: int| 0 <= j < seq.len() ==> #[trigger] orig[seq[j].id] == seq[j],
                forall|k: Seq<char>| #[trigger] orig.contains_key(k) <==> exists|j: int| 0 <= j < seq.len() && seq[j].id == k,
                p == older_than(cutoff as int),
                removed == seq.take(i as int).filter(p).len(),
                removed <= i,
                forall|k: Seq<char>| #[trigger] self.sessions().contains_key(k) <==> (orig.contains_key(k) && !(exists|j: int|
                    0 <= j < i && seq[j].id == k && p(seq[j]))),
                forall|k: Seq<char>| #[trigger] self.sessions().contains_key(k) ==> self.sessions()[k] == orig[k],
            decreases all@.len() - i,
        {
            proof {
                crate::seq_facts::lemma_filter_take_step(seq, p, i as int);
            }
            assert(seq[i as int] == all@[i as int]@);
            let ghost before = self.sessions();
            let ghost key = seq[i as int].id;
            if all[i].last_active < cutoff {
                let _ = self.sessions.remove(all[i].id.as_str());
                forget_id(&mut self.by_user, all[i].user_id.as_str(), all[i].id.as_str());
                removed = removed + 1;
            }
            proof {
                assert forall|k: Seq<char>| #[trigger] self.sessions().contains_key(k) <==> (orig.contains_key(k) && !(exists|j: int|
                    0 <= j < i + 1 && seq[j].id == k && p(seq[j]))) by {
                    if k == key {
                        assert(seq[i as int].id == k);
                        if exists|j: int| 0 <= j < i && seq[j].id == k && p(seq[j]) {
                            let j = choose|j: int| 0 <= j < i && seq[j].id == k && p(seq[j]);
                            assert(crate::table::record_key::<Session>()(seq[j]) != crate::table::record_key::<Session>()(seq[i as int]));
                        }
                    } else {
                        if exists|j: int| 0 <= j < i + 1 && seq[j].id == k && p(seq[j]) {
                            let j = choose|j: int| 0 <= j < i + 1 && seq[j].id == k && p(seq[j]);
                            assert(j != i);
                        }
                    }
                }
            }
            i = i + 1;
        }
        proof {
            crate::seq_facts::lemma_take_full(seq);
            assert forall|k: Seq<char>| #[trigger] self.sessions().contains_key(k) <==> (orig.contains_key(k) && !p(orig[k])) by {
                if orig.contains_key(k) {
                    let j = choose|j: int| 0 <= j < seq.len() && seq[j].id == k;
                    assert(orig[seq[j].id] == seq[j]);
                    if exists|jj: int| 0 <= jj < all@.len() && seq[jj].id == k && p(seq[jj]) {
                        let jj = choose|jj: int| 0 <= jj < all@.len() && seq[jj].id == k && p(seq[jj]);
                        if jj != j {
                            assert(crate::table::record_key::<Session>()(seq[j]) != crate::table::record_key::<Session>()(seq[jj]))
                                by {
                                if jj < j {
                                } else {
                                }
                            }
                        }
                    }
                }
            }
        }
        removed
    }

    /// Remove the sessions last active more than `max_age_nanos` ago; see
    /// [`SessionStore::reap_expired_at`].
    pub fn reap_expired(&mut self, max_age_nanos: u64) -> (removed: usize)
        requires
            old(self).wf(),
        ensures
            final(self).wf(),
            exists|now: i64|
                removed == #[trigger] old(self).session_table().seq().filter(older_than(reap_cutoff(max_age_nanos, now))).len(),
    {
        let now = now_unix_nanos();
        self.reap_expired_at(max_age_nanos, now)
    }
}

} // verus!
