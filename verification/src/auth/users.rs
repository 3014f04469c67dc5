//! The user store: accounts with Argon2-hashed passwords, found by id or
//! by user name (case-insensitive; names are kept in lower case).
//!
//! Creating a user registers it as a principal of the permission engine
//! and publishes `user.created`; logins and deletions publish
//! `user.logged_in` and `user.deleted`.

use vstd::prelude::*;
use crate::auth::password::{HashedPassword, PasswordError, argon2_accepts, hash_password, password_fits, phc_parses, verify_password};
use crate::platform::events::{EventBus, bus_wf, emit_on, emitted};
use crate::platform::permissions::{PermissionEngine, Principal, PrincipalKind, PrincipalView};
use crate::sys::{new_uuid, now_unix_nanos};
use crate::table::{Record, Table, models};
use crate::text::{copy_strings, texts};

verus! {

/// What `str::to_lowercase` gives (the Unicode lower-case mapping).
pub uninterp spec fn lowercase(s: Seq<char>) -> Seq<char>;

/// The lower-case form of an ASCII character: `A`..`Z` become `a`..`z`,
/// the others stay.
pub open spec fn ascii_lower(c: char) -> char {
    if 'A' <= c && c <= 'Z' {
        ((c as u32) + 32) as char
    } else {
        c
    }
}

/// Whether, when `s` is ASCII text, its lower-case form is the ASCII
/// lower-case form.
pub open spec fn lowercase_known(s: Seq<char>) -> bool {
    (forall|i: int| 0 <= i < s.len() ==> (#[trigger] s[i] as u32) < 128) ==> lowercase(s) == s.map_values(
        |c: char| ascii_lower(c),
    )
}

/// Lower-case a text (`str::to_lowercase`); on ASCII text this is the ASCII
/// lower-case form, character by character.
#[verifier::external_body]
fn to_lowercase(s: &str) -> (r: String)
    ensures
        r@ == lowercase(s@),
        (forall|i: int| 0 <= i < s@.len() ==> (#[trigger] s@[i] as u32) < 128) ==> r@ == s@.map_values(
            |c: char| ascii_lower(c),
        ),
{
    s.to_lowercase()
}

/// Unique user identifier.
pub type UserId = String;

/// A registered user.
pub struct User {
    /// Unique id.
    pub id: UserId,
    /// Unique user name, in lower case.
    pub username: String,
    /// The Argon2 hash of the password.
    pub password_hash: Option<HashedPassword>,
    /// Email address.
    pub email: Option<String>,
    /// Roles held.
    pub roles: Vec<String>,
    /// Creation time (unix nanoseconds).
    pub created_at: i64,
    /// Last successful login (unix nanoseconds).
    pub last_login: Option<i64>,
    /// Whether the account is active.
    pub active: bool,
}

/// A user as values.
pub struct UserView {
    pub id: Seq<char>,
    pub username: Seq<char>,
    pub password_hash: Option<Seq<char>>,
    pub email: Option<Seq<char>>,
    pub roles: Seq<Seq<char>>,
    pub created_at: i64,
    pub last_login: Option<i64>,
    pub active: bool,
}

impl View for User {
    type V = UserView;

    open spec fn view(&self) -> UserView {
        UserView {
            id: self.id@,
            username: self.username@,
            password_hash: match self.password_hash {
                Some(h) => Some(h.phc()),
                None => None,
            },
            email: match self.email {
                Some(e) => Some(e@),
                None => None,
            },
            roles: texts(self.roles@),
            created_at: self.created_at,
            last_login: self.last_login,
            active: self.active,
        }
    }
}

impl User {
    /// An independent copy.
    pub fn duplicate(&self) -> (u: User)
        ensures
            u@ == self@,
    {
        User {
            id: self.id.clone(),
            username: self.username.clone(),
            password_hash: match &self.password_hash {
                Some(h) => Some(h.duplicate()),
                None => None,
            },
            email: match &self.email {
                Some(e) => Some(e.clone()),
                None => None,
            },
            roles: copy_strings(&self.roles),
            created_at: self.created_at,
            last_login: self.last_login,
            active: self.active,
        }
    }
}

impl Record for User {
    type Model = UserView;

    open spec fn model(&self) -> UserView {
        self@
    }

    open spec fn model_key(m: UserView) -> Seq<char> {
        m.id
    }

    fn key(&self) -> (k: &str) {
        self.id.as_str()
    }

    fn copy(&self) -> (r: User) {
        self.duplicate()
    }
}

/// A user name and the id it belongs to.
#[derive(Debug)]
pub struct NameEntry {
    /// User name (lower case).
    pub username: String,
    /// User id.
    pub id: UserId,
}

impl Record for NameEntry {
    type Model = (Seq<char>, Seq<char>);

    open spec fn model(&self) -> (Seq<char>, Seq<char>) {
        (self.username@, self.id@)
    }

    open spec fn model_key(m: (Seq<char>, Seq<char>)) -> Seq<char> {
        m.0
    }

    fn key(&self) -> (k: &str) {
        self.username.as_str()
    }

    fn copy(&self) -> (r: NameEntry) {
        NameEntry { username: self.username.clone(), id: self.id.clone() }
    }
}

/// Error of a user operation.
#[derive(Debug)]
pub enum UserError {
    /// The user name is taken.
    UsernameTaken(String),
    /// No such user.
    NotFound(UserId),
    /// Wrong password.
    InvalidCredentials,
    /// Hashing the password failed.
    Password(PasswordError),
    /// The account is inactive.
    Inactive(UserId),
}

/// The principal registered for a new user.
pub open spec fn user_principal(u: UserView, roles: Seq<String>) -> PrincipalView {
    PrincipalView { id: u.id, name: u.username, kind: PrincipalKind::User, roles }
}

/// The user store.
pub struct UserStore {
    users: Table<User>,
    by_username: Table<NameEntry>,
    permission_engine: Option<PermissionEngine>,
    event_bus: Option<EventBus>,
}

impl Default for UserStore {
    fn default() -> (s: UserStore)
        ensures
            s.wf(),
            s.users() == Map::<Seq<char>, UserView>::empty(),
            s.names() == Map::<Seq<char>, (Seq<char>, Seq<char>)>::empty(),
            s.permission_engine() is None,
            s.event_bus() is None,
    {
        UserStore::new()
    }
}

impl UserStore {
    /// The users by id.
    pub open spec fn users(&self) -> Map<Seq<char>, UserView> {
        self.user_table().map()
    }

    /// The user table.
    pub closed spec fn user_table(&self) -> Table<User> {
        self.users
    }

    /// The user-name index: name to (name, id).
    pub closed spec fn names(&self) -> Map<Seq<char>, (Seq<char>, Seq<char>)> {
        self.by_username.map()
    }

    /// The attached permission engine.
    pub closed spec fn permission_engine(&self) -> Option<PermissionEngine> {
        self.permission_engine
    }

    /// The attached event bus.
    pub closed spec fn event_bus(&self) -> Option<EventBus> {
        self.event_bus
    }

    /// The id a user name leads to, if any.
    pub open spec fn id_of(&self, username: Seq<char>) -> Option<Seq<char>> {
        if self.names().contains_key(username) {
            Some(self.names()[username].1)
        } else {
            None
        }
    }

    /// The user a user name leads to, if any.
    pub open spec fn user_named(&self, username: Seq<char>) -> Option<UserView> {
        match self.id_of(username) {
            Some(id) => if self.users().contains_key(id) {
                Some(self.users()[id])
            } else {
                None
            },
            None => None,
        }
    }

    /// Well-formedness: the tables have distinct keys; the engine and the
    /// bus are well formed.
    pub closed spec fn wf(&self) -> bool {
        &&& self.users.wf()
        &&& self.by_username.wf()
        &&& (self.permission_engine matches Some(e) ==> e.wf())
        &&& bus_wf(self.event_bus)
    }

    /// An empty store.
    pub fn new() -> (s: UserStore)
        ensures
            s.wf(),
            s.users() == Map::<Seq<char>, UserView>::empty(),
            s.names() == Map::<Seq<char>, (Seq<char>, Seq<char>)>::empty(),
            s.permission_engine() is None,
            s.event_bus() is None,
    {
        UserStore { users: Table::new(), by_username: Table::new(), permission_engine: None, event_bus: None }
    }

    /// Attach a permission engine: new users are registered as principals.
    pub fn with_permission_engine(self, engine: PermissionEngine) -> (s: UserStore)
        requires
            self.wf(),
            engine.wf(),
        ensures
            s.wf(),
            s.user_table() == self.user_table(),
            s.names() == self.names(),
            s.permission_engine() == Some(engine),
            s.event_bus() == self.event_bus(),
    {
        UserStore {
            users: self.users,
            by_username: self.by_username,
            permission_engine: Some(engine),
            event_bus: self.event_bus,
        }
    }

    /// Attach an event bus: lifecycle changes are published on it.
    pub fn with_event_bus(self, bus: EventBus) -> (s: UserStore)
        requires
            self.wf(),
            bus.wf(),
        ensures
            s.wf(),
            s.user_table() == self.user_table(),
            s.names() == self.names(),
            s.permission_engine() == self.permission_engine(),
            s.event_bus() == Some(bus),
    {
        UserStore {
            users: self.users,
            by_username: self.by_username,
            permission_engine: self.permission_engine,
            event_bus: Some(bus),
        }
    }

    /// The attached permission engine.
    pub fn engine(&self) -> (e: Option<&PermissionEngine>)
        ensures
            match e {
                Some(e) => self.permission_engine() == Some(*e),
                None => self.permission_engine() is None,
            },
    {
        match &self.permission_engine {
            Some(e) => Some(e),
            None => None,
        }
    }

    /// The attached event bus.
    pub fn events(&self) -> (b: Option<&EventBus>)
        ensures
            match b {
                Some(b) => self.event_bus() == Some(*b),
                None => self.event_bus() is None,
            },
    {
        match &self.event_bus {
            Some(b) => Some(b),
            None => None,
        }
    }

    /// Number of users.
    pub fn user_count(&self) -> (n: usize)
        requires
            self.wf(),
        ensures
            n == self.users().len(),
    {
        self.users.len()
    }

    /// Create an active user with a fresh id: the user name is lower-cased
    /// and must be free; the password is hashed with Argon2. The user is
    /// registered as a principal with its roles and `user.created` is
    /// published.
    pub fn create(&mut self, username: &str, password: &str, email: Option<String>, roles: Vec<String>) -> (r: Result<
        User,
        UserError,
    >)
        requires
            old(self).wf(),
        ensures
            final(self).wf(),
            lowercase_known(username@),
            password_fits(password@) ==> (r is Ok <==> !old(self).names().contains_key(lowercase(username@))),
            !password_fits(password@) ==> r matches Err(UserError::Password(_)),
            match r {
                Ok(u) => {
                    &&& !old(self).names().contains_key(lowercase(username@))
                    &&& u@.username == lowercase(username@)
                    &&& u@.id.len() == 36
                    &&& (u@.password_hash matches Some(h) && phc_parses(h) && argon2_accepts(password@, h))
                    &&& u@.email == (match email {
                        Some(e) => Some(e@),
                        None => None,
                    })
                    &&& u@.roles == texts(roles@)
                    &&& u@.last_login is None
                    &&& u@.active
                    &&& final(self).users() == old(self).users().insert(u@.id, u@)
                    &&& final(self).names() == old(self).names().insert(u@.username, (u@.username, u@.id))
                    &&& match (old(self).permission_engine(), final(self).permission_engine()) {
                        (Some(o), Some(n)) => n.principals() == o.principals().insert(
                            u@.id,
                            user_principal(u@, roles@),
                        ) && n.roles() == o.roles(),
                        (None, None) => true,
                        _ => false,
                    }
                    &&& emitted(old(self).event_bus(), final(self).event_bus(), "user.created"@, u@.id)
                },
                Err(UserError::UsernameTaken(n)) => {
                    &&& old(self).names().contains_key(lowercase(username@))
                    &&& n@ == lowercase(username@)
                    &&& final(self).users() == old(self).users()
                    &&& final(self).names() == old(self).names()
                    &&& final(self).event_bus() == old(self).event_bus()
                    &&& final(self).permission_engine() == old(self).permission_engine()
                },
                Err(UserError::Password(e)) => {
                    &&& e is HashFailed
                    &&& final(self).users() == old(self).users()
                    &&& final(self).names() == old(self).names()
                    &&& final(self).event_bus() == old(self).event_bus()
                    &&& final(self).permission_engine() == old(self).permission_engine()
                },
                Err(_) => false,
            },
    {
        let name = to_lowercase(username);
        let password_hash = match hash_password(password) {
            Ok(h) => h,
            Err(e) => {
                return Err(UserError::Password(e));
            },
        };
        let id = new_uuid();
        let now = now_unix_nanos();
        if let Some(_) = self.by_username.find(name.as_str()) {
            return Err(UserError::UsernameTaken(name));
        }
        let principal_roles = copy_strings(&roles);
        let user = User {
            id: id.clone(),
            username: name.clone(),
            password_hash: Some(password_hash),
            email,
            roles,
            created_at: now,
            last_login: None,
            active: true,
        };
        let out = user.duplicate();
        self.users.upsert(user);
        self.by_username.upsert(NameEntry { username: name.clone(), id: id.clone() });
        match &mut self.permission_engine {
            Some(engine) => {
                engine.register_principal(
                    Principal { id: id.clone(), name: name.clone(), kind: PrincipalKind::User, roles: principal_roles },
                );
            },
            None => {},
        }
        emit_on(&mut self.event_bus, "user.created", id.as_str());
        Ok(out)
    }

    /// The user with this id.
    pub fn get(&self, id: &str) -> (r: Option<User>)
        requires
            self.wf(),
        ensures
            match r {
                Some(u) => self.users().contains_key(id@) && u@ == self.users()[id@],
                None => !self.users().contains_key(id@),
            },
    {
        self.users.get(id)
    }

    /// The user with this user name, in any case.
    pub fn get_by_username(&self, username: &str) -> (r: Option<User>)
        requires
            self.wf(),
        ensures
            lowercase_known(username@),
            match r {
                Some(u) => self.user_named(lowercase(username@)) == Some(u@),
                None => self.user_named(lowercase(username@)) is None,
            },
    {
        let name = to_lowercase(username);
        match self.by_username.find(name.as_str()) {
            Some(i) => {
                let id = self.by_username.at(i).id.clone();
                self.users.get(id.as_str())
            },
            None => None,
        }
    }

    /// Check credentials: the user named so, if active, whose password
    /// matches its hash.
    pub fn verify(&self, username: &str, password: &str) -> (r: Result<User, UserError>)
        requires
            self.wf(),
        ensures
            match self.user_named(lowercase(username@)) {
                None => r matches Err(UserError::NotFound(e)) && e@.len() == 0,
                Some(u) => if !u.active {
                    r matches Err(UserError::Inactive(e)) && e@ == u.id
                } else {
                    match u.password_hash {
                        Some(h) => if phc_parses(h) && argon2_accepts(password@, h) {
                            r matches Ok(v) && v@ == u
                        } else {
                            r matches Err(UserError::InvalidCredentials)
                        },
                        None => r matches Err(UserError::InvalidCredentials),
                    }
                },
            },
    {
        let user = match self.get_by_username(username) {
            Some(u) => u,
            None => {
                return Err(UserError::NotFound(String::new()));
            },
        };
        if !user.active {
            return Err(UserError::Inactive(user.id));
        }
        let ok = match &user.password_hash {
            Some(stored) => verify_password(password, stored).is_ok(),
            None => false,
        };
        if !ok {
            return Err(UserError::InvalidCredentials);
        }
        Ok(user)
    }

    /// Record a successful login now; `user.logged_in` is published.
    pub fn record_login(&mut self, id: &str) -> (r: Option<User>)
        requires
            old(self).wf(),
        ensures
            final(self).wf(),
            final(self).names() == old(self).names(),
            final(self).permission_engine() == old(self).permission_engine(),
            match r {
                Some(u) => {
                    let o = old(self).users()[id@];
                    &&& old(self).users().contains_key(id@)
                    &&& u@.last_login is Some
                    &&& u@ == UserView { last_login: u@.last_login, ..o }
                    &&& final(self).users() == old(self).users().insert(id@, u@)
                    &&& emitted(old(self).event_bus(), final(self).event_bus(), "user.logged_in"@, id@)
                },
                None => !old(self).users().contains_key(id@) && final(self).users() == old(self).users()
                    && final(self).event_bus() == old(self).event_bus(),
            },
    {
        let i = match self.users.find(id) {
            Some(i) => i,
            None => {
                return None;
            },
        };
        let mut u = self.users.at(i).duplicate();
        u.last_login = Some(now_unix_nanos());
        let out = u.duplicate();
        self.users.set_at(i, u);
        emit_on(&mut self.event_bus, "user.logged_in", id);
        Some(out)
    }

    /// Publish a user event on the attached bus.
    pub fn publish(&mut self, name: &str, payload: &str)
        requires
            old(self).wf(),
        ensures
            final(self).wf(),
            final(self).users() == old(self).users(),
            final(self).names() == old(self).names(),
            final(self).permission_engine() == old(self).permission_engine(),
            emitted(old(self).event_bus(), final(self).event_bus(), name@, payload@),
    {
        emit_on(&mut self.event_bus, name, payload);
    }

    /// Delete a user and its name; `user.deleted` is published.
    pub fn delete(&mut self, id: &str) -> (r: Result<(), UserError>)
        requires
            old(self).wf(),
        ensures
            final(self).wf(),
            final(self).permission_engine() == old(self).permission_engine(),
            match r {
                Ok(()) => {
                    &&& old(self).users().contains_key(id@)
                    &&& final(self).users() == old(self).users().remove(id@)
                    &&& final(self).names() == old(self).names().remove(old(self).users()[id@].username)
                    &&& emitted(old(self).event_bus(), final(self).event_bus(), "user.deleted"@, id@)
                },
                Err(UserError::NotFound(e)) => {
                    &&& !old(self).users().contains_key(id@)
                    &&& e@ == id@
                    &&& final(self).users() == old(self).users()
                    &&& final(self).names() == old(self).names()
                    &&& final(self).event_bus() == old(self).event_bus()
                },
                Err(_) => false,
            },
    {
        let user = match self.users.remove(id) {
            Some(u) => u,
            None => {
                return Err(UserError::NotFound(id.to_owned()));
            },
        };
        self.by_username.remove(user.username.as_str());
        emit_on(&mut self.event_bus, "user.deleted", id);
        Ok(())
    }

    /// All users, in creation order.
    pub fn list(&self) -> (r: Vec<User>)
        ensures
            models(r@) == self.user_table().seq(),
    {
        self.users.all()
    }

    /// Store a user as given, under its id and name (replacing what was
    /// there); nothing is registered or published.
    pub fn insert_raw(&mut self, user: User)
        requires
            old(self).wf(),
        ensures
            final(self).wf(),
            final(self).users() == old(self).users().insert(user@.id, user@),
            final(self).names() == old(self).names().insert(user@.username, (user@.username, user@.id)),
            final(self).permission_engine() == old(self).permission_engine(),
            final(self).event_bus() == old(self).event_bus(),
    {
        let entry = NameEntry { username: user.username.clone(), id: user.id.clone() };
        self.users.upsert(user);
        self.by_username.upsert(entry);
    }
}

} // verus!
