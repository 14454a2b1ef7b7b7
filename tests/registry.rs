use nanochat::credentials::{StoreError, UserStore};
use nanochat::sessions::SessionRegistry;

#[test]
fn reuse_check_keeps_rows_when_token_is_live() {
    let mut r = SessionRegistry::new();
    r.create_session(1, "t1", 10);
    r.create_session(1, "t2", 10);
    r.create_session(2, "u1", 10);
    assert_eq!(r.delete_all_user_sessions_on_reuse(1, "u1"), 0);
    assert_eq!(r.len(), 3);
}

#[test]
fn reuse_check_revokes_only_that_user() {
    let mut r = SessionRegistry::new();
    r.create_session(1, "t1", 10);
    r.create_session(2, "u1", 10);
    r.create_session(1, "t2", 10);
    assert_eq!(r.delete_all_user_sessions_on_reuse(1, "stale"), 2);
    assert_eq!(r.len(), 1);
    assert!(r.has_session(2, "u1"));
    assert!(!r.has_session(1, "t1"));
}

#[test]
fn update_session_rotates_one_row() {
    let mut r = SessionRegistry::new();
    r.create_session(1, "t1", 10);
    r.create_session(1, "t2", 10);
    assert_eq!(r.update_session(1, "t1", "t3", 20), 1);
    assert!(r.has_session(1, "t3"));
    assert!(!r.has_session(1, "t1"));
    assert!(r.has_session(1, "t2"));
    assert_eq!(r.session_time(1, "t3"), Some(20));
    assert_eq!(r.session_time(1, "t2"), Some(10));
    assert_eq!(r.session_time(1, "t1"), None);
    assert_eq!(r.update_session(2, "t2", "t4", 30), 0);
    assert!(r.has_session(1, "t2"));
}

#[test]
fn delete_session_is_idempotent() {
    let mut r = SessionRegistry::new();
    r.create_session(1, "t1", 10);
    r.create_session(2, "t1", 10);
    assert_eq!(r.delete_session(1, "t1"), 1);
    assert_eq!(r.delete_session(1, "t1"), 0);
    assert!(r.has_session(2, "t1"));
    assert!(r.holds_token("t1"));
    assert!(!r.holds_token("t2"));
}

#[test]
fn usernames_are_unique_and_case_sensitive() {
    let mut s = UserStore::new();
    let a = s.insert_user("alice", "h1", "s1", 10).unwrap();
    assert_eq!(a.id, 0);
    assert_eq!(a.username, "alice");
    assert_eq!(a.pbkdf2_salt, "s1");
    assert_eq!(a.created_at, 10);
    assert!(matches!(s.insert_user("alice", "h2", "s2", 11), Err(StoreError::UniqueViolation)));
    let b = s.insert_user("Alice", "h3", "s3", 12).unwrap();
    assert_eq!(b.id, 1);
    let found = s.get_user_by_username("alice").unwrap();
    assert_eq!(found.password, "h1");
    assert!(s.get_user_by_username("bob").is_none());
}
