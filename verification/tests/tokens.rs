use authcore::claims::{ACCESS_TTL_SECS, MAX_INSTANT, REFRESH_TTL_SECS};
use authcore::errors::{AuthError, UnauthorizedKind};
use authcore::guard::{authenticate, AuthGuard, LevelGuard};
use authcore::jwt::{decode_access_token, decode_refresh_token};
use authcore::service::Tokens;

const SECRET: &str = "unit-test-signing-secret";

fn now() -> i64 {
    chrono::Utc::now().timestamp()
}

#[test]
fn mint_then_decode_access_round_trips() {
    let t0 = now();
    let tokens = Tokens::new("alice", "user", SECRET, t0).unwrap();
    let claims = decode_access_token(&tokens.access_token, SECRET).unwrap();
    assert_eq!(claims.username, "alice");
    assert_eq!(claims.role, "user");
    assert_eq!(claims.exp, t0 + ACCESS_TTL_SECS);
    let t1 = now();
    assert!(claims.exp >= t0 + ACCESS_TTL_SECS && claims.exp <= t1 + ACCESS_TTL_SECS + 1);
}

#[test]
fn mint_then_decode_refresh_round_trips() {
    let t0 = now();
    let tokens = Tokens::new("bob", "admin", SECRET, t0).unwrap();
    let claims = decode_refresh_token(&tokens.refresh_token, SECRET).unwrap();
    assert_eq!(claims.username, "bob");
    assert_eq!(claims.refresh_exp, t0 + REFRESH_TTL_SECS);
    assert_eq!(claims.access_exp, t0 + ACCESS_TTL_SECS);
    let access = decode_access_token(&tokens.access_token, SECRET).unwrap();
    assert_eq!(access.access_uuid, claims.access_uuid);
}

#[test]
fn refresh_token_decodes_deterministically() {
    let tokens = Tokens::new("carol", "user", SECRET, now()).unwrap();
    let first = decode_refresh_token(&tokens.refresh_token, SECRET).unwrap();
    let second = decode_refresh_token(&tokens.refresh_token, SECRET).unwrap();
    assert_eq!(first.refresh_uuid, second.refresh_uuid);
    assert_eq!(first.access_uuid, second.access_uuid);
    assert_eq!(first.username, second.username);
    assert_eq!(first.refresh_exp, second.refresh_exp);
    assert_eq!(first.access_exp, second.access_exp);
}

#[test]
fn expired_access_token_fails_with_token_expired() {
    let tokens = Tokens::new("alice", "user", SECRET, now() - 7200).unwrap();
    let r = decode_access_token(&tokens.access_token, SECRET);
    assert!(matches!(
        r,
        Err(AuthError::Unauthorized(UnauthorizedKind::TokenExpired))
    ));
}

#[test]
fn garbage_token_fails_with_generic() {
    let r = decode_access_token("definitely.not.a-token", SECRET);
    assert!(matches!(
        r,
        Err(AuthError::Unauthorized(UnauthorizedKind::Generic(_)))
    ));
}

#[test]
fn wrong_secret_fails_with_generic() {
    let tokens = Tokens::new("alice", "user", SECRET, now()).unwrap();
    let r = decode_access_token(&tokens.access_token, "anothersecret");
    assert!(matches!(
        r,
        Err(AuthError::Unauthorized(UnauthorizedKind::Generic(_)))
    ));
}

#[test]
fn access_and_refresh_payloads_are_not_interchangeable() {
    let tokens = Tokens::new("alice", "user", SECRET, now()).unwrap();
    assert!(decode_access_token(&tokens.refresh_token, SECRET).is_err());
    assert!(decode_refresh_token(&tokens.access_token, SECRET).is_err());
}

#[test]
fn missing_header_fails_with_token_missing() {
    let r = authenticate(None, SECRET);
    assert!(matches!(
        r,
        Err(AuthError::Unauthorized(UnauthorizedKind::TokenMissing))
    ));
}

#[test]
fn malformed_header_fails_with_generic() {
    let r = authenticate(Some("Bearer"), SECRET);
    assert!(matches!(
        r,
        Err(AuthError::Unauthorized(UnauthorizedKind::Generic(_)))
    ));
    let r2 = authenticate(Some("Bearer a b"), SECRET);
    assert!(matches!(
        r2,
        Err(AuthError::Unauthorized(UnauthorizedKind::Generic(_)))
    ));
}

#[test]
fn well_formed_header_authenticates() {
    let tokens = Tokens::new("alice", "user", SECRET, now()).unwrap();
    let header = format!("Bearer {}", tokens.access_token);
    let claims = authenticate(Some(&header), SECRET).unwrap();
    assert_eq!(claims.username, "alice");
    let guard = AuthGuard::from_header(Some(&header), SECRET).unwrap();
    assert_eq!(guard.0.username, "alice");
    assert_eq!(guard.0.get_username(), "alice");
    assert_eq!(guard.0.get_role(), "user");
}

#[test]
fn level_guard_rejects_plain_users() {
    let tokens = Tokens::new("alice", "user", SECRET, now()).unwrap();
    let header = format!("Bearer {}", tokens.access_token);
    let r = LevelGuard::from_header(Some(&header), SECRET);
    assert!(matches!(r, Err(AuthError::Forbidden(_))));
}

#[test]
fn level_guard_admits_admins() {
    let tokens = Tokens::new("root", "admin", SECRET, now()).unwrap();
    let header = format!("Bearer {}", tokens.access_token);
    let guard = LevelGuard::from_header(Some(&header), SECRET).unwrap();
    assert_eq!(guard.0.role, "admin");
}

#[test]
fn error_statuses_follow_the_taxonomy() {
    assert_eq!(
        AuthError::Unauthorized(UnauthorizedKind::TokenMissing).get_status(),
        401
    );
    assert_eq!(AuthError::Forbidden(String::from("x")).get_status(), 403);
    assert_eq!(AuthError::NotFound(String::from("user")).get_status(), 404);
    assert_eq!(AuthError::Unprocessable(String::from("x")).get_status(), 422);
    assert_eq!(AuthError::Internal(String::from("x")).get_status(), 500);
    assert_eq!(
        AuthError::Unauthorized(UnauthorizedKind::TokenMissing).kind_label(),
        "token missing"
    );
    assert_eq!(
        AuthError::Unauthorized(UnauthorizedKind::TokenExpired).kind_label(),
        "token expired"
    );
}

#[test]
fn minting_at_the_latest_allowed_instant_round_trips() {
    let t0 = MAX_INSTANT - REFRESH_TTL_SECS;
    let tokens = Tokens::new("alice", "user", SECRET, t0).unwrap();
    let access = decode_access_token(&tokens.access_token, SECRET).unwrap();
    assert_eq!(access.exp, t0 + ACCESS_TTL_SECS);
    let refresh = decode_refresh_token(&tokens.refresh_token, SECRET).unwrap();
    assert_eq!(refresh.refresh_exp, MAX_INSTANT);
    assert_eq!(refresh.access_exp, t0 + ACCESS_TTL_SECS);
}
