use nexora::auth::password::{hash_password, verify_password, HashedPassword, PasswordError};
use nexora::auth::users::{UserError, UserStore};
use nexora::platform::events::EventBus;
use nexora::platform::permissions::{PermissionEngine, PrincipalKind};

fn store_with_core() -> UserStore {
    UserStore::new().with_permission_engine(PermissionEngine::new()).with_event_bus(EventBus::new())
}

fn user_event_names(store: &UserStore) -> Vec<String> {
    store.events().unwrap().replay_filtered(0, "user.").into_iter().map(|e| e.name).collect()
}

#[test]
fn hash_and_verify_roundtrip() {
    let hashed = hash_password("hunter2").unwrap();
    assert!(verify_password("hunter2", &hashed).is_ok());
    assert!(matches!(verify_password("wrong", &hashed), Err(PasswordError::VerifyFailed)));
}

#[test]
fn hash_is_unique_per_call() {
    let h1 = hash_password("same").unwrap();
    let h2 = hash_password("same").unwrap();
    assert_ne!(h1.as_str(), h2.as_str());
    assert!(verify_password("same", &h1).is_ok());
    assert!(verify_password("same", &h2).is_ok());
    assert!(h1.as_str().starts_with("$argon2id$"));
}

#[test]
fn invalid_hash_rejected() {
    let err = match HashedPassword::from_str("not-a-real-hash") {
        Err(e) => e,
        Ok(_) => panic!("accepted a malformed hash"),
    };
    assert!(matches!(err, PasswordError::InvalidHash(_)));
}

#[test]
fn stored_hash_reads_back() {
    let h = hash_password("pw").unwrap();
    let again = match HashedPassword::from_str(h.as_str()) {
        Ok(x) => x,
        Err(_) => panic!("rejected its own hash"),
    };
    assert!(verify_password("pw", &again).is_ok());
}

#[test]
fn create_and_get_user() {
    let mut store = store_with_core();
    let user = store.create("Alice", "hunter2", Some("alice@nexora.io".into()), vec!["viewer".into()]).unwrap();
    assert_eq!(user.username, "alice");
    assert_eq!(user.id.len(), 36);
    let by_id = store.get(&user.id).unwrap();
    assert_eq!(by_id.id, user.id);
    let by_name = store.get_by_username("ALICE").unwrap();
    assert_eq!(by_name.id, user.id);
    assert_eq!(store.user_count(), 1);
    assert_eq!(store.list().len(), 1);
}

#[test]
fn duplicate_username_rejected() {
    let mut store = store_with_core();
    store.create("alice", "pw1", None, vec![]).unwrap();
    assert!(matches!(store.create("ALICE", "pw2", None, vec![]), Err(UserError::UsernameTaken(_))));
    assert_eq!(store.user_count(), 1);
}

#[test]
fn verify_password_works() {
    let mut store = store_with_core();
    store.create("bob", "correct pw", None, vec![]).unwrap();
    assert!(store.verify("bob", "correct pw").is_ok());
    assert!(matches!(store.verify("bob", "wrong"), Err(UserError::InvalidCredentials)));
    assert!(matches!(store.verify("nobody", "x"), Err(UserError::NotFound(_))));
}

#[test]
fn inactive_user_cannot_login() {
    let mut store = store_with_core();
    let user = store.create("carol", "pw", None, vec![]).unwrap();
    let mut stored = store.get(&user.id).unwrap();
    stored.active = false;
    store.insert_raw(stored);
    assert!(matches!(store.verify("carol", "pw"), Err(UserError::Inactive(_))));
}

#[test]
fn create_emits_event() {
    let mut store = store_with_core();
    store.create("dave", "pw", None, vec![]).unwrap();
    assert_eq!(user_event_names(&store), vec!["user.created".to_string()]);
}

#[test]
fn record_login_emits_event() {
    let mut store = store_with_core();
    let user = store.create("eve", "pw", None, vec![]).unwrap();
    let logged = store.record_login(&user.id).unwrap();
    assert!(logged.last_login.is_some());
    assert_eq!(user_event_names(&store), vec!["user.created".to_string(), "user.logged_in".to_string()]);
    assert!(store.record_login("nobody").is_none());
}

#[test]
fn delete_emits_event_and_removes_from_indices() {
    let mut store = store_with_core();
    let user = store.create("frank", "pw", None, vec![]).unwrap();
    store.delete(&user.id).unwrap();
    assert!(store.get(&user.id).is_none());
    assert!(store.get_by_username("frank").is_none());
    let names = user_event_names(&store);
    assert_eq!(names.len(), 2);
    assert_eq!(names[1], "user.deleted");
    assert!(matches!(store.delete(&user.id), Err(UserError::NotFound(_))));
}

#[test]
fn create_registers_principal() {
    let mut store = store_with_core();
    let user = store.create("grace", "pw", None, vec!["admin".into()]).unwrap();
    let principals = store.engine().unwrap().list_principals();
    assert_eq!(principals.len(), 1);
    assert_eq!(principals[0].id, user.id);
    assert_eq!(principals[0].kind, PrincipalKind::User);
    assert!(principals[0].roles.contains(&"admin".to_string()));
}
