use k3_live_manager::errors::OAuthError;
use k3_live_manager::oauth_service::OAuthService;
use k3_live_manager::repositories::{
    CredentialRepository, InMemoryCredentialRepository, InMemoryTokenRepository,
};

#[test]
fn provider_error_on_unparseable_redirect_url() {
    let mut creds = InMemoryCredentialRepository::new();
    let cred = creds
        .add_credential(k3_live_manager::models::AddCredentialPayload {
            service_name: "google".into(),
            client_id: "cid".into(),
            client_secret: "csec".into(),
        })
        .unwrap();
    let svc = OAuthService::new(creds, InMemoryTokenRepository::new());
    let res = svc.generate_auth_url(cred.id, "not a url");
    assert_eq!(res.unwrap_err(), OAuthError::ProviderError);
}

#[test]
fn every_error_variant_has_a_message() {
    let variants = [
        OAuthError::NotFound,
        OAuthError::BindError,
        OAuthError::ProviderError,
        OAuthError::StateMismatch,
        OAuthError::MissingRefreshToken,
        OAuthError::PersistenceError,
    ];
    for v in variants {
        assert!(!v.message().is_empty());
    }
}
