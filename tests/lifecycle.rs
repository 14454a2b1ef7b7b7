use nanochat::auth::{AuthError, AuthenticatedUser, SignIn, SignUp};
use nanochat::lifecycle::{check_password, hash_signup, AuthService, Config};

const NOW: u64 = 1_700_000_000;

fn service() -> AuthService {
    AuthService::new(Config {
        access_token_secret: "access-secret".to_string(),
        refresh_token_secret: "refresh-secret".to_string(),
        access_token_ttl_sec: 900,
        refresh_token_ttl_sec: 604_800,
        argon_secret: "pepper".to_string(),
    })
}

fn signup_body(name: &str, password: &str) -> SignUp {
    SignUp { username: name.to_string(), password: password.to_string(), password_check: password.to_string() }
}

fn signin_body(name: &str, password: &str) -> SignIn {
    SignIn { username: name.to_string(), password: password.to_string() }
}

fn bearer(token: &str) -> String {
    format!("Bearer {}", token)
}

#[test]
fn signup_with_mismatched_check_is_invalid_input() {
    let mut s = service();
    let body = SignUp {
        username: "alice".to_string(),
        password: "Abcdefg12345!".to_string(),
        password_check: "Abcdefg12345?".to_string(),
    };
    assert_eq!(s.signup(&body).err(), Some(AuthError::InvalidInput));
    assert!(s.users.get_user_by_username("alice").is_none());
}

#[test]
fn signup_with_bad_shape_is_invalid_input() {
    let mut s = service();
    assert_eq!(s.signup(&signup_body("a", "Abcdefg12345!")).err(), Some(AuthError::InvalidInput));
    assert_eq!(s.signup(&signup_body("alice", "short1!")).err(), Some(AuthError::InvalidInput));
}

#[test]
fn signup_twice_conflicts() {
    let mut s = service();
    let first = s.signup(&signup_body("alice", "Abcdefg12345!")).unwrap();
    assert_eq!(first.id, 0);
    assert_eq!(first.username, "alice");
    assert_eq!(first.pbkdf2_salt.len(), 64);
    let stored = s.users.get_user_by_username("alice").unwrap();
    assert!(stored.password.starts_with("$argon2id$"));
    assert!(!stored.password.contains("Abcdefg12345!"));
    assert_eq!(s.signup(&signup_body("alice", "Zyxwvut98765?")).err(), Some(AuthError::Conflict));
    assert_eq!(s.sessions.len(), 0);
}

#[test]
fn register_reports_conflict_without_hashing() {
    let mut s = service();
    let body = signup_body("carol", "Abcdefg12345!");
    let a = s.register(&body, "hash", "salt", 42).unwrap();
    assert_eq!(a.id, 0);
    assert_eq!(a.created_at, 42);
    assert_eq!(a.pbkdf2_salt, "salt");
    assert_eq!(s.register(&body, "hash2", "salt2", 43).err(), Some(AuthError::Conflict));
}

#[test]
fn signin_returns_token_for_the_user() {
    let mut s = service();
    let user = s.signup(&signup_body("alice", "Abcdefg12345!")).unwrap();
    let pair = s.signin_at(&signin_body("alice", "Abcdefg12345!"), None, NOW).unwrap();
    assert_ne!(pair.access_token.token, pair.refresh_token);
    assert!(s.sessions.has_session(user.id, &pair.refresh_token));
    assert_eq!(s.sessions.len(), 1);
    let header = bearer(&pair.access_token.token);
    let who = AuthenticatedUser::from_request(Some(&header), "access-secret", NOW).unwrap();
    assert_eq!(who.id, user.id);
    assert_eq!(who.username, "alice");
    assert_eq!(who.pbkdf2_salt, user.pbkdf2_salt);
    assert_eq!(who.created_at, user.created_at);
}

#[test]
fn wrong_password_and_unknown_user_look_alike() {
    let mut s = service();
    let body = SignUp { username: "alice".to_string(), password: "Abcdefg12345!".to_string(), password_check: "Abcdefg12345!".to_string() };
    s.register(&body, nanochat::lifecycle::DUMMY_PASSWORD_HASH, "salt", 0).unwrap();
    let wrong = s.signin_at(&signin_body("alice", "Wrongpass123!"), None, NOW);
    let unknown = s.signin_at(&signin_body("nobody", "Wrongpass123!"), None, NOW);
    assert_eq!(wrong.err(), Some(AuthError::Unauthorized));
    assert_eq!(unknown.err(), Some(AuthError::Unauthorized));
    assert_eq!(s.sessions.len(), 0);
    assert_eq!(s.next_token_id, 0);
}

#[test]
fn signin_with_bad_shape_is_invalid_input() {
    let mut s = service();
    assert_eq!(s.signin_at(&signin_body("a", "Abcdefg12345!"), None, NOW).err(), Some(AuthError::InvalidInput));
}

#[test]
fn refresh_rotates_and_old_token_is_single_use() {
    let mut s = service();
    let user = s.signup(&signup_body("alice", "Abcdefg12345!")).unwrap();
    let first = s.signin_at(&signin_body("alice", "Abcdefg12345!"), None, NOW).unwrap();
    assert_eq!(s.sessions.session_time(user.id, &first.refresh_token), Some(NOW));
    let second = s.refresh_at(&first.refresh_token, NOW + 5).unwrap();
    assert_ne!(second.refresh_token, first.refresh_token);
    assert_eq!(s.sessions.session_time(user.id, &second.refresh_token), Some(NOW + 5));
    assert!(s.sessions.has_session(user.id, &second.refresh_token));
    assert!(!s.sessions.has_session(user.id, &first.refresh_token));
    let header = bearer(&second.access_token.token);
    assert_eq!(AuthenticatedUser::from_request(Some(&header), "access-secret", NOW + 5).unwrap().id, user.id);
    assert_eq!(s.refresh_at(&first.refresh_token, NOW + 1).err(), Some(AuthError::Unauthorized));
    assert_eq!(s.sessions.len(), 0);
    assert_eq!(s.refresh_at(&second.refresh_token, NOW + 2).err(), Some(AuthError::Unauthorized));
}

#[test]
fn revocation_spares_other_users() {
    let mut s = service();
    let body_a = signup_body("alice", "Abcdefg12345!");
    let body_b = signup_body("bob", "Abcdefg12345!");
    let hash = s.signup(&body_a).unwrap();
    let stored = s.users.get_user_by_username("alice").unwrap().password;
    s.register(&body_b, &stored, "salt-b", 1).unwrap();
    let a = s.signin_at(&signin_body("alice", "Abcdefg12345!"), None, NOW).unwrap();
    let b = s.signin_at(&signin_body("bob", "Abcdefg12345!"), None, NOW).unwrap();
    let a2 = s.refresh_at(&a.refresh_token, NOW).unwrap();
    assert_eq!(s.refresh_at(&a.refresh_token, NOW).err(), Some(AuthError::Unauthorized));
    assert!(!s.sessions.has_session(hash.id, &a2.refresh_token));
    assert!(s.refresh_at(&b.refresh_token, NOW).is_ok());
}

#[test]
fn logout_ends_the_session() {
    let mut s = service();
    let user = s.signup(&signup_body("alice", "Abcdefg12345!")).unwrap();
    let pair = s.signin_at(&signin_body("alice", "Abcdefg12345!"), None, NOW).unwrap();
    let other = s.refresh_at(&pair.refresh_token, NOW).unwrap();
    let third = s.signin_at(&signin_body("alice", "Abcdefg12345!"), Some(&other.refresh_token), NOW).unwrap();
    assert_eq!(s.sessions.len(), 2);
    s.logout(&user, &third.refresh_token);
    assert_eq!(s.sessions.len(), 1);
    assert_eq!(s.refresh_at(&third.refresh_token, NOW).err(), Some(AuthError::Unauthorized));
    let before = s.sessions.len();
    s.logout(&user, &third.refresh_token);
    assert_eq!(s.sessions.len(), before);
}

#[test]
fn signin_with_stale_cookie_revokes_other_sessions() {
    let mut s = service();
    let user = s.signup(&signup_body("alice", "Abcdefg12345!")).unwrap();
    let first = s.signin_at(&signin_body("alice", "Abcdefg12345!"), None, NOW).unwrap();
    let rotated = s.refresh_at(&first.refresh_token, NOW).unwrap();
    let again = s.signin_at(&signin_body("alice", "Abcdefg12345!"), Some(&first.refresh_token), NOW).unwrap();
    assert!(!s.sessions.has_session(user.id, &rotated.refresh_token));
    assert!(s.sessions.has_session(user.id, &again.refresh_token));
    assert_eq!(s.sessions.len(), 1);
}

#[test]
fn expired_access_token_fails_the_guard() {
    let mut s = service();
    s.signup(&signup_body("alice", "Abcdefg12345!")).unwrap();
    let pair = s.signin_at(&signin_body("alice", "Abcdefg12345!"), None, NOW).unwrap();
    let header = bearer(&pair.access_token.token);
    assert!(AuthenticatedUser::from_request(Some(&header), "access-secret", NOW + 900).is_some());
    assert!(AuthenticatedUser::from_request(Some(&header), "access-secret", NOW + 901).is_none());
}

#[test]
fn guard_rejects_bad_headers() {
    let mut s = service();
    s.signup(&signup_body("alice", "Abcdefg12345!")).unwrap();
    let pair = s.signin_at(&signin_body("alice", "Abcdefg12345!"), None, NOW).unwrap();
    let t = &pair.access_token.token;
    assert!(AuthenticatedUser::from_request(None, "access-secret", NOW).is_none());
    assert!(AuthenticatedUser::from_request(Some(t), "access-secret", NOW).is_none());
    assert!(AuthenticatedUser::from_request(Some(&format!("Basic {}", t)), "access-secret", NOW).is_none());
    assert!(AuthenticatedUser::from_request(Some(&format!("bearer {}", t)), "access-secret", NOW).is_some());
    assert!(AuthenticatedUser::from_request(Some(&bearer(t)), "refresh-secret", NOW).is_none());
    assert!(AuthenticatedUser::from_request(Some(&bearer(&pair.refresh_token)), "access-secret", NOW).is_none());
    assert!(AuthenticatedUser::from_request(Some(&bearer("not.a.token")), "access-secret", NOW).is_none());
}

#[test]
fn refresh_rejects_access_tokens_and_garbage() {
    let mut s = service();
    s.signup(&signup_body("alice", "Abcdefg12345!")).unwrap();
    let pair = s.signin_at(&signin_body("alice", "Abcdefg12345!"), None, NOW).unwrap();
    assert_eq!(s.refresh_at(&pair.access_token.token, NOW).err(), Some(AuthError::Unauthorized));
    assert_eq!(s.refresh_at("garbage", NOW).err(), Some(AuthError::Unauthorized));
    assert_eq!(s.sessions.len(), 1);
    assert_eq!(s.refresh_at(&pair.refresh_token, NOW + 604_801).err(), Some(AuthError::Unauthorized));
    assert_eq!(s.sessions.len(), 1);
}

#[test]
fn clock_driven_operations_work() {
    let mut s = service();
    s.signup(&signup_body("alice", "Abcdefg12345!")).unwrap();
    let pair = s.signin(&signin_body("alice", "Abcdefg12345!"), None).unwrap();
    let header = bearer(&pair.access_token.token);
    assert!(s.authenticate(Some(&header)).is_some());
    let next = s.refresh(&pair.refresh_token).unwrap();
    assert!(s.authenticate(Some(&bearer(&next.access_token.token))).is_some());
}

#[test]
fn signup_then_signin_carries_the_returned_identity() {
    let mut s = service();
    let user = s.signup(&signup_body("dave", "Abcdefg12345!")).unwrap();
    let stored = s.users.get_user_by_username("dave").unwrap();
    assert_eq!(stored.id, user.id);
    assert_eq!(stored.pbkdf2_salt, user.pbkdf2_salt);
    assert_eq!(stored.created_at, user.created_at);
    assert!(user.pbkdf2_salt.chars().all(|c| c.is_ascii_digit() || ('a'..='f').contains(&c)));
    let pair = s.signin_at(&signin_body("dave", "Abcdefg12345!"), None, NOW).unwrap();
    let who = AuthenticatedUser::from_request(Some(&bearer(&pair.access_token.token)), "access-secret", NOW).unwrap();
    assert_eq!(who.pbkdf2_salt, user.pbkdf2_salt);
    assert_eq!(who.created_at, user.created_at);
    assert_eq!(s.sessions.session_time(user.id, &pair.refresh_token), Some(NOW));
}

#[test]
fn split_signup_and_signin_steps() {
    let mut s = service();
    let body = signup_body("erin", "Abcdefg12345!");
    assert_eq!(hash_signup(&s.config, &signup_body("e", "Abcdefg12345!")).err(), Some(AuthError::InvalidInput));
    let (hash, salt) = hash_signup(&s.config, &body).unwrap();
    assert_eq!(salt.len(), 64);
    let user = s.register(&body, &hash, &salt, 7).unwrap();
    let stored = s.users.get_user_by_username("erin").unwrap();
    assert!(check_password(&s.config, "Abcdefg12345!", Some(&stored)));
    assert!(!check_password(&s.config, "Abcdefg12345?", Some(&stored)));
    assert!(!check_password(&s.config, "Abcdefg12345!", None));
    let pair = s.complete_signin_at(&stored, None, NOW).unwrap();
    assert!(s.sessions.has_session(user.id, &pair.refresh_token));
    assert_eq!(s.next_token_id, 1);
}
