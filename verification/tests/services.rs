use k3_live_manager::commands::{clamp_skew, ensure_valid_access_token};
use k3_live_manager::credential_service::CredentialService;
use k3_live_manager::errors::OAuthError;
use k3_live_manager::models::AddCredentialPayload;
use k3_live_manager::oauth_service::OAuthService;
use k3_live_manager::repositories::{InMemoryCredentialRepository, InMemoryTokenRepository};
use k3_live_manager::setup::init;

#[test]
fn test_add_credential_with_mock() {
    let mut service = CredentialService::new(InMemoryCredentialRepository::new());

    let payload = AddCredentialPayload {
        service_name: "test".to_string(),
        client_id: "test_id".to_string(),
        client_secret: "test_secret".to_string(),
    };

    let result = service.add_credential(payload);
    assert!(result.is_ok());
    assert_eq!(result.unwrap().service_name, "test");
}

#[test]
fn credential_names_follow_store_order() {
    let mut service = CredentialService::new(InMemoryCredentialRepository::new());
    for name in ["google", "twitch"] {
        service
            .add_credential(AddCredentialPayload {
                service_name: name.to_string(),
                client_id: "cid".to_string(),
                client_secret: "csec".to_string(),
            })
            .unwrap();
    }
    let names = service.get_credential_names().unwrap();
    assert_eq!(names, vec!["google".to_string(), "twitch".to_string()]);
}

#[test]
fn clamp_skew_zeroes_negative_values() {
    assert_eq!(clamp_skew(-5), 0);
    assert_eq!(clamp_skew(0), 0);
    assert_eq!(clamp_skew(120), 120);
}

#[test]
fn command_reports_not_found_for_missing_token() {
    let mut service =
        OAuthService::new(InMemoryCredentialRepository::new(), InMemoryTokenRepository::new());
    let result = ensure_valid_access_token(&mut service, 7, -3);
    assert_eq!(result.unwrap_err(), OAuthError::NotFound);
}

#[test]
fn init_builds_empty_stores() {
    let mut state = init();
    assert!(state.credential_service.get_all_credentials().unwrap().is_empty());
    let result = state.oauth_service.ensure_valid_access_token(1, 0);
    assert_eq!(result.unwrap_err(), OAuthError::NotFound);
}
