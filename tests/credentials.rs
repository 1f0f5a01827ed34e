use homehub::config::Config;
use homehub::guard::{auth, authorize, bearer_token, AuthError};
use homehub::password::{hash_password, HashingError};
use homehub::token::TokenError;
use homehub::user::{
    admit_registration, finish_registration, generate_tokens, register_hashed, login_user, login_with_account, refresh_access_token, register_user,
    store_failure, translate_login_error, AppUser, AppUserTable, LoginUserError, RegisterUserError, StoreError,
};

use base64::Engine;
use ring::signature::{Ed25519KeyPair, KeyPair};

fn pem(label: &str, der: &[u8]) -> String {
    let body = base64::engine::general_purpose::STANDARD.encode(der);
    format!("-----BEGIN {}-----
{}
-----END {}-----
", label, body, label)
}

/// An Ed25519 key pair derived from a fixed seed, as PKCS#8 and SPKI PEM text.
fn key_pair(seed: u8) -> (String, String) {
    let seed = [seed; 32];
    let pair = Ed25519KeyPair::from_seed_unchecked(&seed).unwrap();
    let mut pkcs8 = vec![0x30, 0x2e, 0x02, 0x01, 0x00, 0x30, 0x05, 0x06, 0x03, 0x2b, 0x65, 0x70, 0x04, 0x22, 0x04, 0x20];
    pkcs8.extend_from_slice(&seed);
    let mut spki = vec![0x30, 0x2a, 0x30, 0x05, 0x06, 0x03, 0x2b, 0x65, 0x70, 0x03, 0x21, 0x00];
    spki.extend_from_slice(pair.public_key().as_ref());
    (pem("PRIVATE KEY", &pkcs8), pem("PUBLIC KEY", &spki))
}
const NOW: u64 = 1_700_000_000;

fn config() -> Config {
    let (access_private, access_public) = key_pair(1);
    let (refresh_private, refresh_public) = key_pair(2);
    Config {
        database_url: "postgres://localhost/homehub".to_string(),
        access_token_private_key: access_private,
        access_token_public_key: access_public,
        refresh_token_private_key: refresh_private,
        refresh_token_public_key: refresh_public,
        access_token_max_age: 900,
        refresh_token_max_age: 86_400,
    }
}

#[test]
fn register_then_login_issues_pair_for_new_account() {
    let mut table = AppUserTable::new();
    let user = register_user(&mut table, 11, "Ada", "ada@example.com", "s3cret").unwrap();
    assert_eq!(user.id, 11);
    assert_eq!(user.name, "Ada");
    assert_eq!(user.email, "ada@example.com");
    assert_eq!(user.locale, None);
    let cfg = config();
    let tokens = login_user(&table, "ada@example.com", "s3cret", &cfg, NOW).unwrap();
    let access = cfg.access_service().verify(&tokens.access_token, NOW).unwrap();
    let refresh = cfg.refresh_service().verify(&tokens.refresh_token, NOW).unwrap();
    assert_eq!(access.subject, 11);
    assert_eq!(access.expires_at, NOW + 900);
    assert_eq!(refresh.subject, 11);
    assert_eq!(refresh.expires_at, NOW + 86_400);
}

#[test]
fn stored_hash_is_not_the_password() {
    let mut table = AppUserTable::new();
    register_user(&mut table, 1, "A", "a@x", "pw").unwrap();
    let row = table.find_by_id(1).unwrap();
    assert_ne!(row.password_hash, "pw");
    assert!(row.password_hash.starts_with("$argon2"));
}

#[test]
fn second_registration_with_same_email_conflicts() {
    let mut table = AppUserTable::new();
    register_user(&mut table, 1, "A", "a@x", "pw1").unwrap();
    let second = register_user(&mut table, 2, "B", "a@x", "pw2");
    match second {
        Err(RegisterUserError::UserAlreadyExists { email }) => assert_eq!(email, "a@x"),
        other => panic!("unexpected {:?}", other),
    }
    assert_eq!(table.len(), 1);
    assert_eq!(table.find_user_by_email("a@x").unwrap().id, 1);
    assert!(table.find_by_id(2).is_none());
}

#[test]
fn email_is_case_sensitive() {
    let mut table = AppUserTable::new();
    register_user(&mut table, 1, "A", "a@x", "pw").unwrap();
    assert!(register_user(&mut table, 2, "A", "A@x", "pw").is_ok());
    assert_eq!(table.len(), 2);
}

#[test]
fn duplicate_id_is_a_store_error() {
    let mut table = AppUserTable::new();
    register_user(&mut table, 1, "A", "a@x", "pw").unwrap();
    assert!(matches!(register_user(&mut table, 1, "B", "b@x", "pw"), Err(RegisterUserError::DbError)));
    assert_eq!(table.len(), 1);
    assert!(matches!(table.create_user(5, "C", "a@x", "h", None), Err(StoreError::DuplicateEmail)));
    assert!(matches!(table.create_user(1, "C", "c@x", "h", Some("en")), Err(StoreError::DuplicateId)));
    let c = table.create_user(5, "C", "c@x", "h", Some("en")).unwrap();
    assert_eq!(c.locale.as_deref(), Some("en"));
    assert_eq!(table.len(), 2);
}

#[test]
fn registration_status_codes() {
    assert_eq!(RegisterUserError::UserAlreadyExists { email: "e".to_string() }.status_code(), 400);
    assert_eq!(RegisterUserError::DbError.status_code(), 500);
    assert_eq!(RegisterUserError::CouldNotHashError.status_code(), 500);
}

#[test]
fn admit_registration_decides_on_hash_and_lookup() {
    let existing = AppUser { id: 1, name: "A".into(), email: "a@x".into(), password_hash: "h".into(), locale: None };
    assert_eq!(admit_registration("a@x", Ok("h1".to_string()), None).unwrap(), "h1");
    assert!(matches!(admit_registration("a@x", Ok("h1".to_string()), Some(&existing)),
        Err(RegisterUserError::UserAlreadyExists { email }) if email == "a@x"));
    assert!(matches!(admit_registration("a@x", Err(HashingError::CouldNotHash), Some(&existing)),
        Err(RegisterUserError::CouldNotHashError)));
}

#[test]
fn finish_registration_maps_insert_outcome() {
    let stored = AppUser { id: 4, name: "D".into(), email: "d@x".into(), password_hash: "h".into(), locale: Some("en".into()) };
    let v = finish_registration("d@x", Ok(stored)).unwrap();
    assert_eq!((v.id, v.name.as_str(), v.email.as_str(), v.locale.as_deref()), (4, "D", "d@x", Some("en")));
    assert!(matches!(finish_registration("d@x", Err(Some(StoreError::DuplicateEmail))),
        Err(RegisterUserError::UserAlreadyExists { email }) if email == "d@x"));
    assert!(matches!(finish_registration("d@x", Err(Some(StoreError::DuplicateId))), Err(RegisterUserError::DbError)));
    assert!(matches!(finish_registration("d@x", Err(None)), Err(RegisterUserError::DbError)));
}

#[test]
fn token_generation_is_repeatable() {
    let cfg = config();
    let a = generate_tokens(8, &cfg, NOW).unwrap();
    let b = generate_tokens(8, &cfg, NOW).unwrap();
    assert_eq!(a.access_token, b.access_token);
    assert_eq!(a.refresh_token, b.refresh_token);
    assert!(!a.access_token.is_empty() && !a.refresh_token.is_empty());
}

#[test]
fn refresh_token_works_again_before_expiry() {
    let cfg = config();
    let first = generate_tokens(9, &cfg, NOW).unwrap();
    assert!(refresh_access_token(&first.refresh_token, &cfg, NOW + 10).is_ok());
    assert!(refresh_access_token(&first.refresh_token, &cfg, NOW + 86_399).is_ok());
}

#[test]
fn login_unknown_email() {
    let table = AppUserTable::new();
    let r = login_user(&table, "nobody@x", "pw", &config(), NOW);
    assert!(matches!(r, Err(LoginUserError::UserNotFoundError(e)) if e == "nobody@x"));
}

#[test]
fn login_wrong_password() {
    let mut table = AppUserTable::new();
    register_user(&mut table, 1, "A", "a@x", "right").unwrap();
    let r = login_user(&table, "a@x", "wrong", &config(), NOW);
    assert!(matches!(r, Err(LoginUserError::InvalidCredentialError)));
}

#[test]
fn login_with_malformed_stored_hash() {
    let user = AppUser { id: 1, name: "A".into(), email: "a@x".into(), password_hash: "plain".into(), locale: None };
    let r = login_with_account(Some(&user), "a@x", "plain", &config(), NOW);
    assert!(matches!(r, Err(LoginUserError::CouldNotHashError)));
}

#[test]
fn login_with_lifetime_out_of_range() {
    let user = AppUser {
        id: 1,
        name: "A".into(),
        email: "a@x".into(),
        password_hash: hash_password("pw").unwrap(),
        locale: None,
    };
    let mut cfg = config();
    cfg.access_token_max_age = -1;
    let r = login_with_account(Some(&user), "a@x", "pw", &cfg, 0);
    assert!(matches!(r, Err(LoginUserError::TokenGenerationError)));
}

#[test]
fn generate_tokens_with_bad_key() {
    let mut cfg = config();
    cfg.refresh_token_private_key = "garbage".to_string();
    assert!(matches!(generate_tokens(3, &cfg, NOW), Err(LoginUserError::TokenGenerationError)));
    let t = generate_tokens(3, &config(), NOW).unwrap();
    assert_ne!(t.access_token, t.refresh_token);
}

#[test]
fn login_errors_read_the_same_outside() {
    let a = translate_login_error(&LoginUserError::UserNotFoundError("a@x".to_string()));
    let b = translate_login_error(&LoginUserError::InvalidCredentialError);
    assert_eq!(a, (401, Some("Invalid credentials")));
    assert_eq!(a, b);
    assert_eq!(translate_login_error(&LoginUserError::DbError), (500, None));
    assert_eq!(translate_login_error(&LoginUserError::CouldNotHashError), (500, None));
    assert_eq!(translate_login_error(&LoginUserError::TokenGenerationError), (500, None));
}

#[test]
fn refresh_issues_new_pair() {
    let cfg = config();
    let first = generate_tokens(9, &cfg, NOW).unwrap();
    let second = refresh_access_token(&first.refresh_token, &cfg, NOW + 60).unwrap();
    let c = cfg.access_service().verify(&second.access_token, NOW + 60).unwrap();
    assert_eq!(c.subject, 9);
    assert_eq!(c.issued_at, NOW + 60);
}

#[test]
fn refresh_with_expired_token_is_refused() {
    let cfg = config();
    let first = generate_tokens(9, &cfg, NOW).unwrap();
    let r = refresh_access_token(&first.refresh_token, &cfg, NOW + 86_400);
    assert!(matches!(r, Err(LoginUserError::InvalidCredentialError)));
}

#[test]
fn refresh_with_access_token_is_refused() {
    let cfg = config();
    let first = generate_tokens(9, &cfg, NOW).unwrap();
    let r = refresh_access_token(&first.access_token, &cfg, NOW);
    assert!(matches!(r, Err(LoginUserError::InvalidCredentialError)));
    let r = refresh_access_token("x.y.z", &cfg, NOW);
    assert!(matches!(r, Err(LoginUserError::InvalidCredentialError)));
}

#[test]
fn bearer_prefix_extraction() {
    assert_eq!(bearer_token("Bearer abc.def"), Some("abc.def"));
    assert_eq!(bearer_token("Bearer "), Some(""));
    assert_eq!(bearer_token("bearer abc"), None);
    assert_eq!(bearer_token("Bearer"), None);
    assert_eq!(bearer_token("Basic abc"), None);
    assert_eq!(bearer_token("Bearer é"), Some("é"));
}

#[test]
fn guard_accepts_valid_access_token() {
    let cfg = config();
    let mut table = AppUserTable::new();
    register_user(&mut table, 21, "G", "g@x", "pw").unwrap();
    let tokens = login_user(&table, "g@x", "pw", &cfg, NOW).unwrap();
    let header = format!("Bearer {}", tokens.access_token);
    let ctx = auth(&table, Some(&header), &cfg, NOW + 1).unwrap();
    assert_eq!(ctx.user.id, 21);
    assert_eq!(ctx.user.email, "g@x");
}

#[test]
fn guard_refusals() {
    let cfg = config();
    let table = AppUserTable::new();
    assert_eq!(authorize(None, &cfg, NOW).unwrap_err(), AuthError::NoToken);
    assert_eq!(authorize(Some("Token abc"), &cfg, NOW).unwrap_err(), AuthError::NoToken);
    let t = generate_tokens(5, &cfg, NOW).unwrap();
    let refresh_header = format!("Bearer {}", t.refresh_token);
    assert_eq!(authorize(Some(&refresh_header), &cfg, NOW).unwrap_err(), AuthError::InvalidToken(TokenError::InvalidSignature));
    let access_header = format!("Bearer {}", t.access_token);
    assert_eq!(authorize(Some(&access_header), &cfg, NOW + 900).unwrap_err(), AuthError::InvalidToken(TokenError::Expired));
    assert_eq!(auth(&table, Some(&access_header), &cfg, NOW).unwrap_err(), AuthError::UnknownAccount);
    let e = AuthError::NoToken;
    assert_eq!(e.status_code(), 401);
    assert_eq!(e.response().message, "No valid token found");
    assert_eq!(AuthError::UnknownAccount.response().message, "Unauthorized");
    assert_eq!(AuthError::UnknownAccount.response().status, "error");
}

#[test]
fn late_email_violation_is_a_conflict() {
    assert!(matches!(store_failure("a@x", StoreError::DuplicateEmail),
        RegisterUserError::UserAlreadyExists { email } if email == "a@x"));
    assert!(matches!(store_failure("a@x", StoreError::DuplicateId), RegisterUserError::DbError));
}

#[test]
fn register_with_given_hash_outcomes() {
    let mut table = AppUserTable::new();
    let r = register_hashed(&mut table, 1, "A", "a@x", Err(HashingError::CouldNotHash));
    assert!(matches!(r, Err(RegisterUserError::CouldNotHashError)));
    assert_eq!(table.len(), 0);
    let v = register_hashed(&mut table, 1, "A", "a@x", Ok("h1".to_string())).unwrap();
    assert_eq!((v.id, v.name.as_str(), v.email.as_str()), (1, "A", "a@x"));
    assert_eq!(table.find_by_id(1).unwrap().password_hash, "h1");
    let r = register_hashed(&mut table, 2, "B", "a@x", Ok("h2".to_string()));
    assert!(matches!(r, Err(RegisterUserError::UserAlreadyExists { email }) if email == "a@x"));
    let r = register_hashed(&mut table, 1, "B", "b@x", Ok("h2".to_string()));
    assert!(matches!(r, Err(RegisterUserError::DbError)));
    assert_eq!(table.len(), 1);
}
