use handly_backend::auth::{authenticate_user, AuthFailure};
use handly_backend::models::{parse_role, RefreshRequest, Role, User};
use handly_backend::password::{hash_password, verify_password};
use handly_backend::session::{bearer_token, login_tokens_at, refresh_tokens, refresh_tokens_at};
use handly_backend::token::{verify_token, verify_token_at, ACCESS_TTL};
use handly_backend::claims::TokenKind;

const KEY: &[u8] = b"test-secret";

fn stored_user(password: &str) -> User {
    User {
        cpf_cnpj: "12345678900".to_string(),
        name: "Bob".to_string(),
        email: "bob@example.com".to_string(),
        password: hash_password(password).unwrap(),
        role: Role::Customer,
    }
}

#[test]
fn hash_and_verify() {
    let h = hash_password("pwd").unwrap();
    assert!(verify_password(&h, "pwd"));
    assert!(!verify_password(&h, "bad"));
}

#[test]
fn hash_is_salted_phc_string() {
    let p = "longenough1";
    let h1 = hash_password(p).unwrap();
    let h2 = hash_password(p).unwrap();
    assert_ne!(h1, p);
    assert!(h1.starts_with("$argon2id$v=19$m=19456,t=2,p=1$"));
    assert_eq!(h1.len(), 97);
    assert_eq!(hash_password("").unwrap().len(), 97);
    assert_eq!(hash_password(&"long password ".repeat(100)).unwrap().len(), 97);
    assert_ne!(h1, h2);
    assert!(verify_password(&h1, p));
    assert!(verify_password(&h2, p));
}

#[test]
fn hash_of_one_password_rejects_another() {
    let h1 = hash_password("first-password").unwrap();
    let h2 = hash_password("second-password").unwrap();
    assert_ne!(h1, h2);
    assert!(!verify_password(&h1, "second-password"));
    assert!(!verify_password(&h2, "first-password"));
}

#[test]
fn malformed_hash_is_refused_not_an_error() {
    assert!(!verify_password("not a phc string", "pwd"));
    assert!(!verify_password("", ""));
    let h = hash_password("pwd").unwrap();
    assert!(!verify_password(&h[1..], "pwd"));
}

#[test]
fn unknown_email_and_wrong_password_fail_alike() {
    let unknown = authenticate_user(None, "whatever");
    let wrong = authenticate_user(Some(stored_user("Password1")), "not-the-password");
    assert_eq!(unknown.unwrap_err(), AuthFailure::InvalidCredentials);
    assert_eq!(wrong.unwrap_err(), AuthFailure::InvalidCredentials);
}

#[test]
fn right_password_returns_the_record() {
    let u = authenticate_user(Some(stored_user("Password1")), "Password1").unwrap();
    assert_eq!(u.email, "bob@example.com");
    assert_eq!(u.cpf_cnpj, "12345678900");
}

#[test]
fn login_issues_tokens_for_the_subject() {
    let now: i64 = 1_700_000_000;
    let pair = login_tokens_at(KEY, Some(stored_user("Password1")), "Password1", now).unwrap();
    let c = verify_token_at(KEY, &pair.access_token, TokenKind::Access, now + 1).unwrap();
    assert_eq!(c.sub, "12345678900");
    assert_eq!(c.exp, now + ACCESS_TTL);
    let failed = login_tokens_at(KEY, Some(stored_user("Password1")), "Password2", now);
    assert_eq!(failed.unwrap_err(), AuthFailure::InvalidCredentials);
    assert_eq!(login_tokens_at(KEY, None, "Password1", now).unwrap_err(), AuthFailure::InvalidCredentials);
}

#[test]
fn refresh_request_rotates_the_pair() {
    let now: i64 = 1_700_000_000;
    let pair = login_tokens_at(KEY, Some(stored_user("Password1")), "Password1", now).unwrap();
    let req = RefreshRequest { refresh_token: pair.refresh_token.clone() };
    let later = now + 7200;
    let next = refresh_tokens_at(KEY, &req, later).unwrap();
    let c = verify_token_at(KEY, &next.access_token, TokenKind::Access, later + 10).unwrap();
    assert_eq!(c.sub, "12345678900");
    let bad = RefreshRequest { refresh_token: pair.access_token.clone() };
    assert!(refresh_tokens_at(KEY, &bad, later).is_none());
}

#[test]
fn refresh_against_the_clock() {
    let pair = login_tokens_at(KEY, Some(stored_user("Password1")), "Password1", 4_000_000_000).unwrap();
    let next = refresh_tokens(KEY, &RefreshRequest { refresh_token: pair.refresh_token }).unwrap();
    let c = verify_token(KEY, &next.access_token, TokenKind::Access).unwrap();
    assert_eq!(c.sub, "12345678900");
}

#[test]
fn roles_are_a_closed_set() {
    assert_eq!(parse_role("customer"), Some(Role::Customer));
    assert_eq!(parse_role("provider"), Some(Role::Provider));
    assert_eq!(parse_role("admin"), None);
    assert_eq!(parse_role("Customer"), None);
    assert_eq!(Role::Provider.as_str(), "provider");
}

#[test]
fn bearer_header_yields_token() {
    assert_eq!(bearer_token("Bearer abc.def.ghi").as_deref(), Some("abc.def.ghi"));
    assert_eq!(bearer_token("Bearer ").as_deref(), Some(""));
    assert_eq!(bearer_token("bearer abc"), None);
    assert_eq!(bearer_token("Basic abc"), None);
    assert_eq!(bearer_token(""), None);
}
