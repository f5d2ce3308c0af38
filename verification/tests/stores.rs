//! The credential and session stores, and password hashing.

use relay_auth::crypt::{encrypt_password, verify_password, CryptError};
use relay_auth::db::{create_dummy_user, create_test_user, get_session, Db};
use relay_auth::store::{CredentialStore, DBError, SessionStore};

#[test]
fn hash_and_verify_round_trip() {
    let hash = encrypt_password("correct-horse").expect("hashing");
    assert_eq!(verify_password("correct-horse", hash.as_str()), Ok(true));
    assert_eq!(verify_password("wrong", hash.as_str()), Ok(false));
    assert_eq!(verify_password("", hash.as_str()), Ok(false));
}

#[test]
fn verify_malformed_hash_is_an_error() {
    assert_eq!(verify_password("x", "not-a-phc-hash"), Err(CryptError::MalformedHash));
    assert_eq!(verify_password("x", ""), Err(CryptError::MalformedHash));
}

#[test]
fn credential_store_create_and_find() {
    let mut store = CredentialStore::new();
    let alice = store.create("alice", "hash-a").expect("create");
    assert_eq!(alice.id, 1);
    assert_eq!(alice.username, "alice");
    let bob = store.create("bob", "hash-b").expect("create");
    assert_eq!(bob.id, 2);

    let found = store.get_user_by_username("alice").expect("lookup");
    assert_eq!(found.id, 1);
    assert_eq!(found.password_hash, "hash-a");
    let by_id = store.get_user_by_id(2).expect("lookup");
    assert_eq!(by_id.username, "bob");
    assert_eq!(by_id.display(), "bob");

    assert!(matches!(store.get_user_by_username("carol"), Err(DBError::NotFound)));
    assert!(matches!(store.get_user_by_username("Alice"), Err(DBError::NotFound)));
    assert!(matches!(store.get_user_by_id(3), Err(DBError::NotFound)));

    let all = store.get_all_users().expect("all users");
    assert_eq!(all.len(), 2);
    assert_eq!(all[0].username, "alice");
    assert_eq!(all[1].username, "bob");
}

#[test]
fn duplicate_username_is_a_conflict() {
    let mut store = CredentialStore::new();
    store.create("alice", "hash-a").expect("create");
    assert!(matches!(store.create("alice", "hash-b"), Err(DBError::Conflict)));
    assert_eq!(store.get_all_users().expect("all users").len(), 1);
}

#[test]
fn session_store_create_find_delete() {
    let mut store = SessionStore::new();
    let s1 = store.create(7, 1000, 60);
    assert_eq!(s1.id, 1);
    assert_eq!(s1.user_id, 7);
    assert_eq!(s1.expires_at, 1060);
    let s2 = store.create(8, 1000, 60);
    assert_eq!(s2.id, 2);

    assert_eq!(store.find(1), Some(s1));
    assert_eq!(store.find(2), Some(s2));
    assert_eq!(store.find(3), None);

    store.delete(1);
    assert_eq!(store.find(1), None);
    assert_eq!(store.find(2), Some(s2));
    // Deleting again changes nothing: delete is idempotent.
    store.delete(1);
    assert_eq!(store.find(1), None);
    assert_eq!(store.find(2), Some(s2));
}

#[test]
fn wipe_expired_sessions_keeps_live_rows() {
    let mut store = SessionStore::new();
    let s1 = store.create(1, 0, 50);
    let s2 = store.create(1, 0, 100);
    let s3 = store.create(1, 0, 150);
    store.wipe_expired_sessions(100);
    // Expired strictly before 100 is swept; an expiry exactly at 100 stays.
    assert_eq!(store.find(s1.id), None);
    assert_eq!(store.find(s2.id), Some(s2));
    assert_eq!(store.find(s3.id), Some(s3));
}

#[test]
fn get_session_checks_expiry_and_joins_user() {
    let mut db = Db::new();
    let user = db.users.create("alice", "hash-a").expect("create");
    let session = db.sessions.create(user.id, 1000, 60);

    let (s, u) = get_session(&db, 1030, session.id).expect("valid session");
    assert_eq!(s, session);
    assert_eq!(u.username, "alice");

    // At the expiry instant the session is no longer valid.
    assert!(matches!(get_session(&db, 1060, session.id), Err(DBError::Expired)));
    assert!(matches!(get_session(&db, 2000, session.id), Err(DBError::Expired)));
    assert!(matches!(get_session(&db, 1030, 99), Err(DBError::NotFound)));
}

#[test]
fn test_user_seeding_is_idempotent() {
    let mut db = Db::new();
    create_test_user(&mut db).expect("seed");
    let first = db.users.get_user_by_username("test_user").expect("seeded");
    assert_eq!(verify_password("test_password", first.password_hash.as_str()), Ok(true));
    create_test_user(&mut db).expect("seed again");
    assert_eq!(db.users.get_all_users().expect("all").len(), 1);
}

#[test]
fn dummy_user_rejects_duplicates() {
    let mut db = Db::new();
    create_dummy_user(&mut db, "alice", "pw").expect("create");
    assert!(matches!(create_dummy_user(&mut db, "alice", "pw2"), Err(DBError::Conflict)));
}

#[test]
fn error_status_codes() {
    assert_eq!(DBError::NotFound.status_code(), 401);
    assert_eq!(DBError::Expired.status_code(), 401);
    assert_eq!(DBError::Conflict.status_code(), 401);
    assert_eq!(DBError::Crypt(CryptError::HashingFailed).status_code(), 500);
    assert_eq!(DBError::Crypt(CryptError::MalformedHash).status_code(), 500);
}
