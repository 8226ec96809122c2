use lekha_auth::model::Provider;
use lekha_auth::token_service::TokenService;
use lekha_auth::user_dto::OAuthLoginRequest;
use lekha_auth::user_service::UserService;

fn setup_service() -> UserService {
    UserService::new(TokenService::new(Some("test-signing-secret".to_string())))
}

fn request(provider: Provider, provider_user_id: &str, email: &str, username: &str) -> OAuthLoginRequest {
    OAuthLoginRequest {
        provider,
        provider_user_id: provider_user_id.to_string(),
        email: email.to_string(),
        username: username.to_string(),
    }
}

#[test]
fn test_oauth_login_new_user() {
    let mut service = setup_service();
    let req = request(Provider::Google, "google_123", "newuser@example.com", "newuser");

    let (result, _, _) = service.oauth_login(&req).unwrap();

    assert_eq!(result.user.username, "newuser");
    assert_eq!(result.user.email, "newuser@example.com");
}

#[test]
fn test_oauth_login_existing_oauth_account() {
    let mut service = setup_service();
    let req = request(Provider::Kakao, "kakao_456", "existing@example.com", "existing");

    let (first_login, _, _) = service.oauth_login(&req.copy()).unwrap();
    let (second_login, _, _) = service.oauth_login(&req).unwrap();

    assert_eq!(first_login.user.id, second_login.user.id);
    assert_eq!(first_login.user.email, second_login.user.email);
}

#[test]
fn test_oauth_login_different_provider_same_email() {
    let mut service = setup_service();
    let google_req = request(Provider::Google, "google_789", "multiauth@example.com", "multiauth");
    let kakao_req = request(Provider::Kakao, "kakao_789", "multiauth@example.com", "multiauth");

    let (google_login, _, _) = service.oauth_login(&google_req).unwrap();
    let (kakao_login, _, _) = service.oauth_login(&kakao_req).unwrap();

    assert_eq!(google_login.user.id, kakao_login.user.id);
}
