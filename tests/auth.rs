use api_gateway::auth::{create_token, create_token_at, sign_claims, verify_token, verify_token_at, AuthError, Claims, IssueError};
use api_gateway::pipeline::Failure;
use std::time::{SystemTime, UNIX_EPOCH};

fn now() -> usize {
    SystemTime::now().duration_since(UNIX_EPOCH).unwrap().as_secs() as usize
}

#[test]
fn test_valid_token_verification() {
    let secret = "secret";
    let my_claims = Claims { sub: "123".to_string(), exp: now() + 60, iat: now() };
    let token = sign_claims(&my_claims, secret).expect("Failed to encode token");
    let result = verify_token(&token, secret);
    assert!(result.is_ok());
    assert_eq!(result.unwrap().sub, "123");
}

#[test]
fn test_expired_token() {
    let secret = "secret";
    let my_claims = Claims { sub: "123".to_string(), exp: now() - 300, iat: now() - 3600 };
    let token = sign_claims(&my_claims, secret).unwrap();
    let result = verify_token(&token, secret);
    assert_eq!(Failure::from_auth(result.unwrap_err()).status_code(), 401);
}

#[test]
fn test_wrong_secret() {
    let my_claims = Claims { sub: "123".to_string(), exp: now() + 60, iat: now() };
    let token = sign_claims(&my_claims, "right").unwrap();
    let result = verify_token(&token, "wrong");
    assert_eq!(Failure::from_auth(result.unwrap_err()).status_code(), 401);
}

#[test]
fn test_token_roundtrip() {
    let secret = "test_secret_123";
    let user_id = "user_99";
    let token = create_token(user_id, secret).expect("Failed to create token");
    let claims = verify_token(&token, secret).expect("Verification failed - secret or algorithm mismatch");
    assert_eq!(claims.sub, user_id);
    assert_eq!(claims.exp, claims.iat + 3600);
}

#[test]
fn wrong_secret_is_a_signature_mismatch() {
    let token = create_token_at("123", "right", 1_000).unwrap();
    assert_eq!(verify_token_at(&token, "wrong", 1_000).unwrap_err(), AuthError::SignatureMismatch);
}

#[test]
fn issued_token_carries_its_times() {
    let token = create_token_at("alice", "k", 1_000).unwrap();
    assert_eq!(token.split('.').count(), 3);
    let claims = verify_token_at(&token, "k", 1_000).unwrap();
    assert_eq!(claims.sub, "alice");
    assert_eq!(claims.iat, 1_000);
    assert_eq!(claims.exp, 4_600);
}

#[test]
fn expiry_leeway_is_sixty_seconds() {
    let token = sign_claims(&Claims { sub: "u".to_string(), exp: 1_000, iat: 0 }, "k").unwrap();
    assert!(verify_token_at(&token, "k", 1_060).is_ok());
    assert_eq!(verify_token_at(&token, "k", 1_061).unwrap_err(), AuthError::Expired);
}

#[test]
fn expired_token_with_bad_signature_is_rejected() {
    let token = sign_claims(&Claims { sub: "u".to_string(), exp: 1_000, iat: 0 }, "k").unwrap();
    assert!(verify_token_at(&token, "other", 5_000).is_err());
}

#[test]
fn issued_token_verifies_until_expiry_plus_leeway() {
    let token = create_token_at("s", "k", 10_000).unwrap();
    assert_eq!(verify_token_at(&token, "k", 13_660).unwrap().sub, "s");
    assert_eq!(verify_token_at(&token, "k", 13_661).unwrap_err(), AuthError::Expired);
}

#[test]
fn garbage_token_is_malformed() {
    assert_eq!(verify_token_at("invalid-token", "secret", 0).unwrap_err(), AuthError::Malformed);
    assert_eq!(verify_token_at("", "secret", 0).unwrap_err(), AuthError::Malformed);
}

#[test]
fn clock_beyond_range_cannot_issue() {
    assert_eq!(create_token_at("s", "k", u64::MAX - 10).unwrap_err(), IssueError::ClockOutOfRange);
}

#[test]
fn same_inputs_give_same_token() {
    let a = create_token_at("u", "k", 5_000).unwrap();
    let b = create_token_at("u", "k", 5_000).unwrap();
    assert_eq!(a, b);
    assert_ne!(a, create_token_at("u", "k", 5_001).unwrap());
    assert_ne!(a, create_token_at("u", "k2", 5_000).unwrap());
}

#[test]
fn empty_subject_and_secret_still_sign() {
    let token = create_token_at("", "", 0).unwrap();
    let claims = verify_token_at(&token, "", 0).unwrap();
    assert_eq!(claims.sub, "");
    assert_eq!(claims.exp, 3600);
    assert!(sign_claims(&Claims { sub: String::new(), exp: 0, iat: 0 }, "").is_ok());
}
