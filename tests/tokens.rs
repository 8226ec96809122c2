use lekha_auth::auth::{authenticate_at, bearer_credential, get_cookie_config, SameSite};
use lekha_auth::decimal::parse_user_id;
use lekha_auth::errors::{ServiceError, RedeemError};
use lekha_auth::jwt::{check_claims, generate_token, verify_token, Claims};
use lekha_auth::model::{expiry_after, ACCESS_TTL_SECS};
use lekha_auth::token_service::TokenService;

const T0: i64 = 1_700_000_000;

#[test]
fn minted_credential_verifies_until_expiry() {
    let token = generate_token(42, "s3cret", ACCESS_TTL_SECS, T0);
    assert_eq!(token.split('.').count(), 3);
    let claims = verify_token(&token, "s3cret", T0 + ACCESS_TTL_SECS).unwrap();
    assert_eq!(claims.sub, "42");
    assert_eq!(claims.iat, T0);
    assert_eq!(claims.exp, T0 + 900);
    assert_eq!(
        verify_token(&token, "s3cret", T0 + ACCESS_TTL_SECS + 1).err(),
        Some(ServiceError::InvalidCredential)
    );
}

#[test]
fn negative_subject_round_trips() {
    let token = generate_token(-7, "s3cret", 60, T0);
    let claims = verify_token(&token, "s3cret", T0).unwrap();
    assert_eq!(claims.sub, "-7");
}

#[test]
fn wrong_secret_or_garbage_is_invalid() {
    let token = generate_token(1, "right", 60, T0);
    assert_eq!(verify_token(&token, "wrong", T0).err(), Some(ServiceError::InvalidCredential));
    assert_eq!(verify_token("not-a-token", "right", T0).err(), Some(ServiceError::InvalidCredential));
    assert_eq!(verify_token("", "right", T0).err(), Some(ServiceError::InvalidCredential));
    let mut tampered = token.clone();
    tampered.push('x');
    assert_eq!(verify_token(&tampered, "right", T0).err(), Some(ServiceError::InvalidCredential));
}

#[test]
fn check_claims_compares_expiry() {
    let at = |exp| Some(Claims { sub: "1".to_string(), exp, iat: 0 });
    assert!(check_claims(at(100), 100).is_ok());
    assert_eq!(check_claims(at(100), 101).err(), Some(ServiceError::InvalidCredential));
    assert_eq!(check_claims(None, 0).err(), Some(ServiceError::InvalidCredential));
}

#[test]
fn expiry_saturates() {
    assert_eq!(expiry_after(10, 5), 15);
    assert_eq!(expiry_after(i64::MAX - 1, 5), i64::MAX);
    assert_eq!(expiry_after(i64::MIN + 1, -5), i64::MIN);
}

#[test]
fn service_without_secret_refuses_mint_and_verify() {
    let t = TokenService::new(None);
    assert_eq!(t.generate_access_token_at(1, T0).err(), Some(ServiceError::Configuration));
    assert_eq!(t.verify_access_token_at("x.y.z", T0).err(), Some(ServiceError::Configuration));
    assert_eq!(authenticate_at(&t, Some("x.y.z"), T0).err(), Some(ServiceError::Configuration));
}

#[test]
fn service_honours_custom_access_ttl() {
    let t = TokenService::with_access_ttl(Some("k".to_string()), 30);
    let token = t.generate_access_token_at(5, T0).unwrap();
    assert!(t.verify_access_token_at(&token, T0 + 30).is_ok());
    assert!(t.verify_access_token_at(&token, T0 + 31).is_err());
    let now_token = t.generate_access_token(5).unwrap();
    assert_eq!(t.verify_access_token(&now_token).unwrap().sub, "5");
}

#[test]
fn gate_rejects_missing_expired_and_foreign_credentials() {
    let t = TokenService::new(Some("gate".to_string()));
    let token = t.generate_access_token_at(9, T0).unwrap();
    assert_eq!(authenticate_at(&t, Some(&token), T0).unwrap().id, 9);
    assert_eq!(authenticate_at(&t, None, T0).err(), Some(ServiceError::Unauthorized));
    assert_eq!(authenticate_at(&t, Some(&token), T0 + 901).err(), Some(ServiceError::Unauthorized));
    let foreign = generate_token(9, "other", 900, T0);
    assert_eq!(authenticate_at(&t, Some(&foreign), T0).err(), Some(ServiceError::Unauthorized));
}

#[test]
fn bearer_header_parsing() {
    assert_eq!(bearer_credential("Bearer abc.def"), Some("abc.def".to_string()));
    assert_eq!(bearer_credential("Bearer "), None);
    assert_eq!(bearer_credential("bearer abc"), None);
    assert_eq!(bearer_credential("Basic abc"), None);
    assert_eq!(bearer_credential(""), None);
}

#[test]
fn subject_parsing() {
    assert_eq!(parse_user_id("42"), Some(42));
    assert_eq!(parse_user_id("-2147483648"), Some(i32::MIN));
    assert_eq!(parse_user_id("2147483647"), Some(i32::MAX));
    assert_eq!(parse_user_id("2147483648"), None);
    assert_eq!(parse_user_id("+7"), Some(7));
    assert_eq!(parse_user_id("007"), Some(7));
    assert_eq!(parse_user_id("-"), None);
    assert_eq!(parse_user_id(""), None);
    assert_eq!(parse_user_id("4x"), None);
    assert_eq!(parse_user_id("99999999999999999999"), None);
}

#[test]
fn cookie_policy_by_environment() {
    let prod = get_cookie_config(true);
    assert!(prod.secure);
    assert_eq!(prod.same_site, SameSite::CrossSite);
    let dev = get_cookie_config(false);
    assert!(!dev.secure);
    assert_eq!(dev.same_site, SameSite::Lax);
}

#[test]
fn error_statuses() {
    assert_eq!(ServiceError::Configuration.status_code(), 500);
    assert_eq!(ServiceError::InvalidCredential.status_code(), 401);
    assert_eq!(ServiceError::RefreshInvalid.status_code(), 401);
    assert_eq!(ServiceError::RefreshExpired.status_code(), 401);
    assert_eq!(ServiceError::Conflict.status_code(), 409);
    assert_eq!(ServiceError::Persistence.status_code(), 500);
    assert_eq!(ServiceError::Unauthorized.status_code(), 401);
    assert_eq!(ServiceError::UserNotFound.status_code(), 404);
    assert_eq!(RedeemError::NotFound.to_service_error(), ServiceError::RefreshInvalid);
    assert_eq!(RedeemError::Expired.to_service_error(), ServiceError::RefreshExpired);
}
