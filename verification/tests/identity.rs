//! Token issuance, verification, bearer extraction and credential checks.

use testflow_core::auth::{authenticate, create_token, extract_identity, validate_login, verify_token};
use testflow_core::dto::{CreateUserRequest, LoginRequest};
use testflow_core::errors::AppError;
use testflow_core::models::{User, UserRole};
use testflow_core::users::new_user_record;

const SECRET: &str = "test-secret-key";

fn issue(role: UserRole, now: u64) -> String {
    create_token(42, "alice", &role, SECRET, 24, now).unwrap()
}

#[test]
fn token_round_trip() {
    let now = 1_700_000_000u64;
    let token = issue(UserRole::Manager, now);
    let claims = verify_token(&token, SECRET, now).unwrap();
    assert_eq!(claims.sub, 42);
    assert_eq!(claims.username, "alice");
    assert_eq!(claims.role, "manager");
    assert_eq!(claims.iat, now);
    assert_eq!(claims.exp, now + 24 * 3600);
}

#[test]
fn token_signature_is_a_real_tag() {
    let now = 1_700_000_000u64;
    let token = issue(UserRole::Tester, now);
    let dot = token.rfind('.').unwrap();
    let (payload, sig) = (&token[..dot], &token[dot + 1..]);
    // an HMAC-SHA256 tag in base64url is 43 characters and differs from the payload
    assert_eq!(sig.len(), 43);
    assert_ne!(sig, payload);
}

#[test]
fn tampered_token_is_unauthorized() {
    let now = 1_700_000_000u64;
    let token = issue(UserRole::Manager, now);
    // flip a character of the payload (the subject id field)
    let mut chars: Vec<char> = token.chars().collect();
    chars[0] = if chars[0] == '0' { '1' } else { '0' };
    let bad: String = chars.into_iter().collect();
    assert!(matches!(verify_token(&bad, SECRET, now), Err(AppError::Unauthorized(_))));
    // truncate the signature
    let shorter = &token[..token.len() - 1];
    assert!(matches!(verify_token(shorter, SECRET, now), Err(AppError::Unauthorized(_))));
    // wrong secret
    assert!(matches!(verify_token(&token, "other-secret", now), Err(AppError::Unauthorized(_))));
}

#[test]
fn expired_token_is_unauthorized() {
    let now = 1_700_000_000u64;
    let token = issue(UserRole::Manager, now);
    let at_expiry = now + 24 * 3600;
    assert!(matches!(verify_token(&token, SECRET, at_expiry), Err(AppError::Unauthorized(_))));
    assert!(matches!(verify_token(&token, SECRET, at_expiry + 1), Err(AppError::Unauthorized(_))));
    // one second before expiry it still verifies
    assert!(verify_token(&token, SECRET, at_expiry - 1).is_ok());
}

#[test]
fn garbage_tokens_are_unauthorized() {
    let now = 1_700_000_000u64;
    for bad in ["", "abc", "abc.def", "....", "0123.xyz"] {
        assert!(matches!(verify_token(bad, SECRET, now), Err(AppError::Unauthorized(_))));
    }
}

#[test]
fn bearer_extraction() {
    let now = 1_700_000_000u64;
    let token = issue(UserRole::Developer, now);
    let header = format!("Bearer {}", token);
    let auth = extract_identity(Some(&header), SECRET, now).unwrap();
    assert_eq!(auth.user_id, 42);
    assert_eq!(auth.username, "alice");
    assert_eq!(auth.role, UserRole::Developer);
    assert!(matches!(extract_identity(None, SECRET, now), Err(AppError::Unauthorized(_))));
    let basic = format!("Basic {}", token);
    assert!(matches!(extract_identity(Some(&basic), SECRET, now), Err(AppError::Unauthorized(_))));
    let bare = token.clone();
    assert!(matches!(extract_identity(Some(&bare), SECRET, now), Err(AppError::Unauthorized(_))));
}

fn stored_user(password: &str, active: bool) -> User {
    let req = CreateUserRequest {
        username: "carol".to_string(),
        email: "carol@example.com".to_string(),
        password: password.to_string(),
        full_name: "Carol Jones".to_string(),
        role: UserRole::Manager,
    };
    let mut u = new_user_record(req, 7, 1_650_000_000).unwrap();
    u.is_active = active;
    u
}

#[test]
fn login_succeeds_with_correct_password() {
    let now = 1_700_000_000u64;
    let user = stored_user("hunter2-secure", true);
    let resp = authenticate(Some(user), &"hunter2-secure".to_string(), SECRET, 24, now).unwrap();
    assert_eq!(resp.token_type, "Bearer");
    assert_eq!(resp.user.id, 7);
    assert_eq!(resp.user.username, "carol");
    let claims = verify_token(&resp.token, SECRET, now).unwrap();
    assert_eq!(claims.sub, 7);
    assert_eq!(claims.role, "manager");
}

#[test]
fn login_rejects_wrong_password_and_unknown_user() {
    let now = 1_700_000_000u64;
    let user = stored_user("hunter2-secure", true);
    let r = authenticate(Some(user), &"wrong-password".to_string(), SECRET, 24, now);
    assert!(matches!(r, Err(AppError::Unauthorized(_))));
    let r2 = authenticate(None, &"hunter2-secure".to_string(), SECRET, 24, now);
    assert!(matches!(r2, Err(AppError::Unauthorized(_))));
}

#[test]
fn inactive_account_fails_like_wrong_password() {
    let now = 1_700_000_000u64;
    let inactive = stored_user("hunter2-secure", false);
    let r = authenticate(Some(inactive), &"hunter2-secure".to_string(), SECRET, 24, now);
    // same error shape as a wrong password: Unauthorized
    assert!(matches!(r, Err(AppError::Unauthorized(_))));
}

#[test]
fn login_request_validation() {
    let ok = LoginRequest { username: "bob".to_string(), password: "pw".to_string() };
    assert!(validate_login(&ok).is_ok());
    let no_user = LoginRequest { username: "".to_string(), password: "pw".to_string() };
    assert!(matches!(validate_login(&no_user), Err(AppError::BadRequest(_))));
    let no_pass = LoginRequest { username: "bob".to_string(), password: "".to_string() };
    assert!(matches!(validate_login(&no_pass), Err(AppError::BadRequest(_))));
}
