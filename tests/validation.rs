use nanochat::auth::{AuthError, SignIn, SignUp};
use nanochat::bearer::is_bearer_scheme;
use nanochat::contacts::{deserialize, serialize, PublicKey};
use nanochat::keys::compute_random_32_bytes_key;
use nanochat::tokens::expiry_of;
use nanochat::validation::{chars_of, is_valid_password, is_valid_username};
use nanochat::Validate;

#[test]
fn username_validator_examples() {
    assert!(is_valid_username("ab"));
    assert!(is_valid_username("a-b_c"));
    assert!(!is_valid_username("a"));
    assert!(!is_valid_username("user!"));
    assert!(!is_valid_username(&"a".repeat(33)));
    assert!(is_valid_username(&"a".repeat(32)));
    assert!(!is_valid_username(""));
    assert!(!is_valid_username("ab1"));
    assert!(!is_valid_username("émile"));
}

#[test]
fn password_validator_examples() {
    assert!(is_valid_password("Abcdefg12345!"));
    assert!(!is_valid_password("alllowercase"));
    assert!(!is_valid_password("short1!"));
    assert!(!is_valid_password("abcdefghijk1"));
    assert!(!is_valid_password("12345678901!"));
    assert!(!is_valid_password("abcdefghijk!"));
    assert!(is_valid_password("abcdefghij1!"));
    assert!(is_valid_password(&format!("a1!{}", "x".repeat(61))));
    assert!(!is_valid_password(&format!("a1!{}", "x".repeat(62))));
    assert!(is_valid_password("ééééééééé1!!"));
}

#[test]
fn signup_body_validation() {
    let good = SignUp {
        username: "alice".to_string(),
        password: "Abcdefg12345!".to_string(),
        password_check: "Abcdefg12345!".to_string(),
    };
    assert!(good.validate());
    let mismatched = SignUp {
        username: "alice".to_string(),
        password: "Abcdefg12345!".to_string(),
        password_check: "Abcdefg12345?".to_string(),
    };
    assert!(!mismatched.validate());
    let bad_name = SignUp {
        username: "a".to_string(),
        password: "Abcdefg12345!".to_string(),
        password_check: "Abcdefg12345!".to_string(),
    };
    assert!(!bad_name.validate());
}

#[test]
fn signin_body_validation() {
    let good = SignIn { username: "bob".to_string(), password: "Abcdefg12345!".to_string() };
    assert!(good.validate());
    let bad = SignIn { username: "bob".to_string(), password: "short1!".to_string() };
    assert!(!bad.validate());
}

#[test]
fn public_key_must_have_32_bytes() {
    assert!(PublicKey { public_key: vec![7u8; 32] }.validate());
    assert!(!PublicKey { public_key: vec![7u8; 31] }.validate());
    assert!(!PublicKey { public_key: vec![7u8; 33] }.validate());
    assert!(!PublicKey { public_key: Vec::new() }.validate());
}

#[test]
fn random_key_is_64_lowercase_hex_digits() {
    let a = compute_random_32_bytes_key().unwrap();
    let b = compute_random_32_bytes_key().unwrap();
    assert_eq!(a.len(), 64);
    assert!(a.chars().all(|c| c.is_ascii_digit() || ('a'..='f').contains(&c)));
    assert_ne!(a, b);
}

#[test]
fn bearer_scheme_ignores_ascii_case() {
    assert!(is_bearer_scheme("Bearer"));
    assert!(is_bearer_scheme("BEARER"));
    assert!(is_bearer_scheme("bEaReR"));
    assert!(!is_bearer_scheme("Basic"));
    assert!(!is_bearer_scheme("Bearer "));
    assert!(!is_bearer_scheme(""));
}

#[test]
fn error_status_codes() {
    assert_eq!(AuthError::InvalidInput.status_code(), 422);
    assert_eq!(AuthError::Unauthorized.status_code(), 401);
    assert_eq!(AuthError::Conflict.status_code(), 409);
    assert_eq!(AuthError::Internal.status_code(), 500);
}

#[test]
fn expiry_adds_ttl_and_saturates() {
    assert_eq!(expiry_of(1_000, 900), 1_900);
    assert_eq!(expiry_of(u64::MAX - 1, 5), u64::MAX);
}

#[test]
fn chars_of_keeps_order() {
    assert_eq!(chars_of("aé!"), vec!['a', 'é', '!']);
    assert!(chars_of("").is_empty());
}

#[test]
fn optional_key_text_round_trips() {
    assert_eq!(serialize(&Some(vec![0x00, 0xab, 0x7f])), "00ab7f");
    assert_eq!(serialize(&None), "null");
    assert_eq!(deserialize("00ab7f"), Some(Some(vec![0x00, 0xab, 0x7f])));
    assert_eq!(deserialize("00AB7F"), Some(Some(vec![0x00, 0xab, 0x7f])));
    assert_eq!(deserialize("null"), Some(None));
    assert_eq!(deserialize("abc"), None);
    assert_eq!(deserialize("zz"), None);
    assert_eq!(deserialize(""), Some(Some(Vec::new())));
}
