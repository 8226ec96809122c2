use lekha_auth::auth::authenticate_at;
use lekha_auth::errors::{ServiceError, RedeemError};
use lekha_auth::model::{Provider, ACCESS_TTL_SECS, REFRESH_TTL_SECS};
use lekha_auth::token_service::TokenService;
use lekha_auth::user_dto::OAuthLoginRequest;
use lekha_auth::user_service::UserService;

const T0: i64 = 1_700_000_000;

fn service() -> UserService {
    UserService::new(TokenService::new(Some("flow-secret".to_string())))
}

fn request(provider: Provider, provider_user_id: &str, email: &str, username: &str) -> OAuthLoginRequest {
    OAuthLoginRequest {
        provider,
        provider_user_id: provider_user_id.to_string(),
        email: email.to_string(),
        username: username.to_string(),
    }
}

#[test]
fn login_creates_user_then_reuses_it() {
    let mut s = service();
    let req = request(Provider::Google, "g1", "a@x.com", "alice");
    let (first, access1, refresh1) = s.oauth_login_at(&req, "raw-1", T0).unwrap();
    assert_eq!(first.user.username, "alice");
    assert_eq!(first.user.email, "a@x.com");
    assert_eq!(refresh1, "raw-1");
    assert_eq!(s.user_repo().count(), 1);

    let (second, access2, refresh2) = s.oauth_login_at(&req, "raw-2", T0 + 60).unwrap();
    assert_eq!(second.user.id, first.user.id);
    assert_eq!(s.user_repo().count(), 1);
    assert_eq!(s.oauth_repo().count(), 1);
    assert_ne!(access1, access2);
    assert_ne!(refresh1, refresh2);
    assert_eq!(s.token_service().refresh_token_repo().count(), 2);
}

#[test]
fn login_with_second_provider_links_existing_email() {
    let mut s = service();
    let (alice, _, _) = s
        .oauth_login_at(&request(Provider::Google, "g1", "a@x.com", "alice"), "raw-1", T0)
        .unwrap();
    let (linked, _, _) = s
        .oauth_login_at(&request(Provider::Kakao, "k1", "a@x.com", "alice2"), "raw-2", T0)
        .unwrap();
    assert_eq!(linked.user.id, alice.user.id);
    assert_eq!(linked.user.username, "alice");
    assert_eq!(s.user_repo().count(), 1);
    assert_eq!(s.oauth_repo().find_by_user_id(alice.user.id).len(), 2);
}

#[test]
fn existing_link_ignores_new_email_and_username() {
    let mut s = service();
    let (first, _, _) = s
        .oauth_login_at(&request(Provider::Naver, "n1", "old@x.com", "olduser"), "raw-1", T0)
        .unwrap();
    let (again, _, _) = s
        .oauth_login_at(&request(Provider::Naver, "n1", "new@x.com", "newname"), "raw-2", T0)
        .unwrap();
    assert_eq!(again.user.id, first.user.id);
    assert_eq!(again.user.email, "old@x.com");
    assert_eq!(again.user.username, "olduser");
}

#[test]
fn taken_username_under_new_email_is_a_conflict() {
    let mut s = service();
    s.oauth_login_at(&request(Provider::Google, "g1", "a@x.com", "alice"), "raw-1", T0)
        .unwrap();
    let r = s.oauth_login_at(&request(Provider::Kakao, "k9", "b@x.com", "alice"), "raw-2", T0);
    assert_eq!(r.err(), Some(ServiceError::Conflict));
    assert_eq!(s.user_repo().count(), 1);
}

#[test]
fn refresh_rotates_and_stale_secret_is_invalid() {
    let mut s = service();
    let (user, _, raw) = s
        .oauth_login_at(&request(Provider::Google, "g1", "a@x.com", "alice"), "raw-old", T0)
        .unwrap();
    let (access, new_raw, user_id) = s.refresh_tokens_at(&raw, "raw-new", T0 + 100).unwrap();
    assert_eq!(user_id, user.user.id);
    assert_eq!(new_raw, "raw-new");
    let gate = authenticate_at(s.token_service(), Some(&access), T0 + 100).unwrap();
    assert_eq!(gate.id, user.user.id);

    let again = s.refresh_tokens_at(&raw, "raw-newer", T0 + 200);
    assert_eq!(again.err(), Some(ServiceError::RefreshInvalid));
    assert!(s.refresh_tokens_at(&new_raw, "raw-newest", T0 + 300).is_ok());
}

#[test]
fn random_refresh_rotation_consumes_secret() {
    let mut s = service();
    let (_, _, raw) = s
        .oauth_login(&request(Provider::Google, "g1", "a@x.com", "alice"))
        .unwrap();
    let (_, new_raw, _) = s.refresh_tokens(&raw).unwrap();
    assert_ne!(new_raw, raw);
    assert_eq!(s.refresh_tokens(&raw).err(), Some(ServiceError::RefreshInvalid));
}

#[test]
fn issued_secret_redeems_until_expiry() {
    let mut t = TokenService::new(Some("k".to_string()));
    t.generate_refresh_token_with(7, "fresh", T0).unwrap();
    assert_eq!(t.redeem_at("fresh", T0 + REFRESH_TTL_SECS), Ok(7));
    assert_eq!(t.redeem_at("fresh", T0 + 1), Ok(7));
    assert_eq!(t.redeem_at("unknown", T0), Err(RedeemError::NotFound));
}

#[test]
fn expired_secret_is_removed_on_redeem() {
    let mut t = TokenService::new(Some("k".to_string()));
    t.generate_refresh_token_with(7, "old", T0).unwrap();
    let late = T0 + REFRESH_TTL_SECS + 1;
    assert_eq!(t.redeem_at("old", late), Err(RedeemError::Expired));
    assert_eq!(t.refresh_token_repo().count(), 0);
    assert_eq!(t.redeem_at("old", late), Err(RedeemError::NotFound));
}

#[test]
fn expired_refresh_reports_refresh_expired() {
    let mut s = service();
    let (_, _, raw) = s
        .oauth_login_at(&request(Provider::Google, "g1", "a@x.com", "alice"), "raw-1", T0)
        .unwrap();
    let late = T0 + REFRESH_TTL_SECS + 1;
    assert_eq!(s.refresh_tokens_at(&raw, "raw-2", late).err(), Some(ServiceError::RefreshExpired));
    assert_eq!(s.refresh_tokens_at(&raw, "raw-3", late).err(), Some(ServiceError::RefreshInvalid));
}

#[test]
fn logout_all_removes_only_that_users_sessions() {
    let mut s = service();
    let (alice, _, _) = s
        .oauth_login_at(&request(Provider::Google, "g1", "a@x.com", "alice"), "a-1", T0)
        .unwrap();
    s.oauth_login_at(&request(Provider::Google, "g1", "a@x.com", "alice"), "a-2", T0)
        .unwrap();
    let (bob, _, _) = s
        .oauth_login_at(&request(Provider::Kakao, "k2", "b@x.com", "bob"), "b-1", T0)
        .unwrap();
    assert_eq!(s.token_service().refresh_token_repo().find_by_user_id(alice.user.id).len(), 2);

    s.logout_all(alice.user.id);

    let repo = s.token_service().refresh_token_repo();
    assert_eq!(repo.find_by_user_id(alice.user.id).len(), 0);
    assert_eq!(repo.find_by_user_id(bob.user.id).len(), 1);
    assert_eq!(repo.count(), 1);
}

#[test]
fn logout_is_idempotent() {
    let mut s = service();
    s.oauth_login_at(&request(Provider::Google, "g1", "a@x.com", "alice"), "raw-1", T0)
        .unwrap();
    s.logout("raw-1");
    assert_eq!(s.token_service().refresh_token_repo().count(), 0);
    s.logout("raw-1");
    s.logout("never-issued");
    assert_eq!(s.refresh_tokens_at("raw-1", "raw-2", T0).err(), Some(ServiceError::RefreshInvalid));
}

#[test]
fn reaping_deletes_only_expired_sessions() {
    let mut s = service();
    s.oauth_login_at(&request(Provider::Google, "g1", "a@x.com", "alice"), "early", T0)
        .unwrap();
    s.oauth_login_at(&request(Provider::Google, "g1", "a@x.com", "alice"), "late", T0 + 1000)
        .unwrap();
    let removed = s.reap_expired_at(T0 + REFRESH_TTL_SECS + 1);
    assert_eq!(removed, 1);
    assert_eq!(s.token_service().refresh_token_repo().count(), 1);
    assert!(s.refresh_tokens_at("late", "next", T0 + REFRESH_TTL_SECS + 1).is_ok());
}

#[test]
fn deleting_a_user_cascades() {
    let mut s = service();
    let (alice, _, _) = s
        .oauth_login_at(&request(Provider::Google, "g1", "a@x.com", "alice"), "a-1", T0)
        .unwrap();
    let (bob, _, _) = s
        .oauth_login_at(&request(Provider::Kakao, "k2", "b@x.com", "bob"), "b-1", T0)
        .unwrap();
    assert!(s.delete_user(alice.user.id));
    assert!(!s.delete_user(alice.user.id));
    assert_eq!(s.user_repo().count(), 1);
    assert_eq!(s.oauth_repo().count(), 1);
    assert_eq!(s.token_service().refresh_token_repo().count(), 1);
    assert!(s.user_repo().find_by_id(bob.user.id).is_some());
    let (fresh, _, _) = s
        .oauth_login_at(&request(Provider::Google, "g1", "a@x.com", "alice"), "a-2", T0)
        .unwrap();
    assert_ne!(fresh.user.id, alice.user.id);
}

#[test]
fn login_without_secret_is_a_configuration_error() {
    let mut s = UserService::new(TokenService::new(None));
    let r = s.oauth_login_at(&request(Provider::Google, "g1", "a@x.com", "alice"), "raw", T0);
    assert_eq!(r.err(), Some(ServiceError::Configuration));
    assert_eq!(s.token_service().refresh_token_repo().count(), 0);
}

#[test]
fn duplicate_refresh_secret_is_a_conflict() {
    let mut t = TokenService::new(Some("k".to_string()));
    assert_eq!(t.generate_refresh_token_with(1, "same", T0), Ok(()));
    assert_eq!(t.generate_refresh_token_with(2, "same", T0), Err(ServiceError::Conflict));
    assert_eq!(t.refresh_token_repo().count(), 1);
}

#[test]
fn stored_hash_is_the_sha256_of_the_secret() {
    let mut t = TokenService::new(Some("k".to_string()));
    t.generate_refresh_token_with(3, "abc", T0).unwrap();
    let rows = t.refresh_token_repo().find_by_user_id(3);
    assert_eq!(rows.len(), 1);
    assert_eq!(
        rows[0].token_hash,
        "ba7816bf8f01cfea414140de5dae2223b00361a396177a9cb410ff61f20015ad"
    );
    assert_eq!(rows[0].expires_at, T0 + REFRESH_TTL_SECS);
    let by_hash = t
        .refresh_token_repo()
        .find_by_token_hash(&"ba7816bf8f01cfea414140de5dae2223b00361a396177a9cb410ff61f20015ad".to_string());
    assert_eq!(by_hash.map(|s| s.user_id), Some(3));
    assert!(t.refresh_token_repo().find_by_token_hash(&"abc".to_string()).is_none());
}

#[test]
fn lifetimes_in_seconds() {
    assert_eq!(TokenService::access_token_max_age(), 900);
    assert_eq!(TokenService::refresh_token_max_age(), 604800);
    assert_eq!(ACCESS_TTL_SECS, 15 * 60);
}

#[test]
fn update_changes_fields_and_guards_uniqueness() {
    let mut s = service();
    let (alice, _, _) = s
        .oauth_login_at(&request(Provider::Google, "g1", "a@x.com", "alice"), "a-1", T0)
        .unwrap();
    let (bob, _, _) = s
        .oauth_login_at(&request(Provider::Kakao, "k2", "b@x.com", "bob"), "b-1", T0)
        .unwrap();
    let mut users = lekha_auth::user_repository::UserRepository::new();
    let a = users.create("alice".to_string(), "a@x.com".to_string(), None, T0).unwrap();
    let b = users.create("bob".to_string(), "b@x.com".to_string(), None, T0).unwrap();
    assert_eq!((a.id, b.id), (alice.user.id, bob.user.id));

    let renamed = users.update(a.id, Some("alicia".to_string()), None, T0 + 5).unwrap();
    assert_eq!(renamed.username, "alicia");
    assert_eq!(renamed.email, "a@x.com");
    assert_eq!(renamed.updated_at, T0 + 5);
    assert_eq!(renamed.created_at, T0);
    assert_eq!(users.find_by_username(&"alicia".to_string()).map(|u| u.id), Some(a.id));
    assert!(users.find_by_username(&"alice".to_string()).is_none());

    assert_eq!(users.update(a.id, None, Some("b@x.com".to_string()), T0).err(), Some(ServiceError::Conflict));
    assert_eq!(users.update(a.id, Some("bob".to_string()), None, T0).err(), Some(ServiceError::Conflict));
    assert!(users.update(a.id, Some("alicia".to_string()), Some("a@x.com".to_string()), T0).is_ok());
    assert_eq!(users.update(999, None, None, T0).err(), Some(ServiceError::UserNotFound));
    assert_eq!(users.count(), 2);
    assert_eq!(users.create("carol".to_string(), "a@x.com".to_string(), None, T0).err(), Some(ServiceError::Conflict));
}

#[test]
fn clock_refresh_of_access_token() {
    let mut t = TokenService::new(Some("k".to_string()));
    let raw = t.generate_refresh_token(11).unwrap();
    let (access, user_id) = t.refresh_access_token(&raw).unwrap();
    assert_eq!(user_id, 11);
    assert_eq!(t.verify_access_token(&access).unwrap().sub, "11");
    assert_eq!(t.refresh_access_token("missing").err(), Some(ServiceError::RefreshInvalid));
}
