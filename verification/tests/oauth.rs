use k3_live_manager::errors::OAuthError;
use k3_live_manager::models::{AddCredentialPayload, AddTokenPayload};
use k3_live_manager::oauth_service::OAuthService;
use k3_live_manager::repositories::{
    CredentialRepository, InMemoryCredentialRepository, InMemoryTokenRepository, TokenRepository,
};

type Service = OAuthService<InMemoryCredentialRepository, InMemoryTokenRepository>;

fn setup_service() -> (Service, i64) {
    let mut creds = InMemoryCredentialRepository::new();
    let cred = creds
        .add_credential(AddCredentialPayload {
            service_name: "google".into(),
            client_id: "cid".into(),
            client_secret: "csec".into(),
        })
        .unwrap();
    (OAuthService::new(creds, InMemoryTokenRepository::new()), cred.id)
}

#[test]
fn ensure_valid_access_token_returns_existing_when_not_expiring() {
    let (mut svc, cred_id) = setup_service();

    let payload = AddTokenPayload {
        credentials_id: cred_id,
        access_token: "a1".into(),
        refresh_token: "r1".into(),
        expires_at: "2099-12-31 23:59:59".into(),
        scope: Some("s".into()),
    };
    svc.token_repo.upsert_token(payload).unwrap();

    let (at, exp) = svc.ensure_valid_access_token(cred_id, 120).unwrap();
    assert_eq!(at, "a1");
    assert_eq!(exp, "2099-12-31 23:59:59");
}

#[test]
fn ensure_valid_access_token_errors_without_refresh_token() {
    let (mut svc, cred_id) = setup_service();

    let payload = AddTokenPayload {
        credentials_id: cred_id,
        access_token: "a1".into(),
        refresh_token: "".into(),
        expires_at: "2000-01-01 00:00:00".into(),
        scope: None,
    };
    svc.token_repo.upsert_token(payload).unwrap();

    let res = svc.ensure_valid_access_token(cred_id, 0);
    assert!(res.is_err());
    assert_eq!(res.unwrap_err(), OAuthError::MissingRefreshToken);
}

#[test]
fn ensure_valid_access_token_rejects_sentinel_refresh_token() {
    let (mut svc, cred_id) = setup_service();
    svc.token_repo
        .upsert_token(AddTokenPayload {
            credentials_id: cred_id,
            access_token: "a1".into(),
            refresh_token: "no_refresh_token".into(),
            expires_at: "2000-01-01 00:00:00".into(),
            scope: None,
        })
        .unwrap();
    let res = svc.ensure_valid_access_token(cred_id, 0);
    assert_eq!(res.unwrap_err(), OAuthError::MissingRefreshToken);
}

#[test]
fn ensure_valid_access_token_treats_unparseable_expiry_as_expired() {
    let (mut svc, cred_id) = setup_service();
    svc.token_repo
        .upsert_token(AddTokenPayload {
            credentials_id: cred_id,
            access_token: "a1".into(),
            refresh_token: "".into(),
            expires_at: "never".into(),
            scope: None,
        })
        .unwrap();
    // Unparseable expiry means expired; the empty refresh token then fails
    // fast, before any network round trip.
    let res = svc.ensure_valid_access_token(cred_id, 0);
    assert_eq!(res.unwrap_err(), OAuthError::MissingRefreshToken);
}

#[test]
fn ensure_valid_access_token_errors_for_missing_token() {
    let (mut svc, cred_id) = setup_service();
    let res = svc.ensure_valid_access_token(cred_id, 0);
    assert_eq!(res.unwrap_err(), OAuthError::NotFound);
}

#[test]
fn fresh_token_is_returned_unchanged_at_explicit_instant() {
    let (mut svc, cred_id) = setup_service();
    svc.token_repo
        .upsert_token(AddTokenPayload {
            credentials_id: cred_id,
            access_token: "keep".into(),
            refresh_token: "r".into(),
            expires_at: "2030-06-15 12:00:00".into(),
            scope: None,
        })
        .unwrap();
    // One second below the threshold: expires_at > now + skew holds, so the
    // stored pair comes back without a store write.
    let now = k3_live_manager::datetime::datetime_epoch(&k3_live_manager::datetime::DateTime {
        year: 2030,
        month: 6,
        day: 15,
        hour: 11,
        minute: 59,
        second: 29,
    });
    let (at, exp) = svc.ensure_valid_access_token_at(cred_id, 30, now).unwrap();
    assert_eq!(at, "keep");
    assert_eq!(exp, "2030-06-15 12:00:00");
    let row = svc.token_repo.get_token_by_credential_id(cred_id).unwrap().unwrap();
    assert_eq!(row.access_token, "keep");
}

#[test]
fn boundary_expiry_requires_refresh() {
    let (mut svc, cred_id) = setup_service();
    svc.token_repo
        .upsert_token(AddTokenPayload {
            credentials_id: cred_id,
            access_token: "stale".into(),
            refresh_token: "".into(),
            expires_at: "2030-06-15 12:00:00".into(),
            scope: None,
        })
        .unwrap();
    // Exactly expires_at == now + skew: the refresh is required, and the
    // empty refresh token fails it fast.
    let now = k3_live_manager::datetime::datetime_epoch(&k3_live_manager::datetime::DateTime {
        year: 2030,
        month: 6,
        day: 15,
        hour: 11,
        minute: 59,
        second: 30,
    });
    let res = svc.ensure_valid_access_token_at(cred_id, 30, now);
    assert_eq!(res.unwrap_err(), OAuthError::MissingRefreshToken);
}

#[test]
fn generate_auth_url_fails_not_found_for_missing_credential() {
    let (svc, cred_id) = setup_service();
    let res = svc.generate_auth_url(cred_id + 1, "http://localhost:1421/oauth/callback");
    assert_eq!(res.unwrap_err(), OAuthError::NotFound);
}

#[test]
fn generate_auth_url_embeds_client_id_and_state() {
    let (svc, cred_id) = setup_service();
    let (url, state) = svc
        .generate_auth_url(cred_id, "http://localhost:1421/oauth/callback")
        .unwrap();
    assert_eq!(state.len(), 22);
    assert!(url.starts_with("https://accounts.google.com/o/oauth2/v2/auth?"));
    assert!(url.contains("client_id=cid"));
    assert!(url.contains(&format!("state={state}")));
    assert!(url.contains("redirect_uri=http%3A%2F%2Flocalhost%3A1421%2Foauth%2Fcallback"));
    assert!(url.contains("youtube"));
}

#[test]
fn start_oauth_flow_issues_state_matching_url() {
    let (svc, cred_id) = setup_service();
    let (url, flow) = svc
        .start_oauth_flow(cred_id, "http://localhost:1421/oauth/callback")
        .unwrap();
    match flow {
        k3_live_manager::flow::FlowState::AuthUrlIssued { expected_state } => {
            assert!(url.contains(&format!("state={expected_state}")));
        }
        other => panic!("unexpected flow state: {other:?}"),
    }
}

#[test]
fn save_token_response_applies_sentinel_and_far_future() {
    let (mut svc, cred_id) = setup_service();
    let response = k3_live_manager::oauth_service::TokenResponseData {
        access_token: "fresh".into(),
        refresh_token: None,
        expires_in_secs: None,
        scopes: Some(vec!["read".into(), "write".into()]),
    };
    let now = k3_live_manager::oauth_service::current_now();
    let row = svc
        .save_token_response(cred_id, response, "no_refresh_token".into(), now)
        .unwrap();
    assert_eq!(row.access_token, "fresh");
    assert_eq!(row.refresh_token, "no_refresh_token");
    assert_eq!(row.expires_at, "2099-12-31 23:59:59");
    assert_eq!(row.scope, Some("read write".to_string()));
}

#[test]
fn save_token_response_keeps_previous_refresh_token() {
    let (mut svc, cred_id) = setup_service();
    svc.token_repo
        .upsert_token(AddTokenPayload {
            credentials_id: cred_id,
            access_token: "old".into(),
            refresh_token: "keep_me".into(),
            expires_at: "2000-01-01 00:00:00".into(),
            scope: None,
        })
        .unwrap();
    let response = k3_live_manager::oauth_service::TokenResponseData {
        access_token: "new".into(),
        refresh_token: None,
        expires_in_secs: Some(3600),
        scopes: None,
    };
    let now = k3_live_manager::oauth_service::current_now();
    let row = svc.save_token_response(cred_id, response, "keep_me".into(), now).unwrap();
    assert_eq!(row.refresh_token, "keep_me");
    assert_eq!(row.access_token, "new");
    let fetched = svc.token_repo.get_token_by_credential_id(cred_id).unwrap().unwrap();
    assert_eq!(fetched.refresh_token, "keep_me");
}

#[test]
fn refresh_persists_strictly_later_expiry() {
    let (mut svc, cred_id) = setup_service();
    let old_expiry = "2030-06-15 12:00:00";
    svc.token_repo
        .upsert_token(AddTokenPayload {
            credentials_id: cred_id,
            access_token: "stale".into(),
            refresh_token: "r".into(),
            expires_at: old_expiry.into(),
            scope: None,
        })
        .unwrap();
    // A token stale at `now` with skew 30, refreshed with a lifetime of
    // 3600 seconds: the persisted expiry lies strictly beyond the old one.
    let now = k3_live_manager::datetime::datetime_epoch(&k3_live_manager::datetime::DateTime {
        year: 2030,
        month: 6,
        day: 15,
        hour: 11,
        minute: 59,
        second: 45,
    });
    let response = k3_live_manager::oauth_service::TokenResponseData {
        access_token: "renewed".into(),
        refresh_token: None,
        expires_in_secs: Some(3600),
        scopes: None,
    };
    let row = svc.save_token_response(cred_id, response, "r".into(), now).unwrap();
    assert_eq!(row.expires_at, "2030-06-15 12:59:45");
    let old_epoch = k3_live_manager::datetime::datetime_epoch(
        &k3_live_manager::datetime::parse_datetime(old_expiry).unwrap(),
    );
    let new_epoch = k3_live_manager::datetime::datetime_epoch(
        &k3_live_manager::datetime::parse_datetime(&row.expires_at).unwrap(),
    );
    assert!(new_epoch > old_epoch);
    // Still exactly one row for the credential, under the same row id.
    let fetched = svc.token_repo.get_token_by_credential_id(cred_id).unwrap().unwrap();
    assert_eq!(fetched.access_token, "renewed");
}

#[test]
fn save_token_response_prefers_provider_refresh_token() {
    let (mut svc, cred_id) = setup_service();
    let response = k3_live_manager::oauth_service::TokenResponseData {
        access_token: "new".into(),
        refresh_token: Some("rotated".into()),
        expires_in_secs: Some(60),
        scopes: None,
    };
    let now = k3_live_manager::oauth_service::current_now();
    let row = svc.save_token_response(cred_id, response, "keep_me".into(), now).unwrap();
    assert_eq!(row.refresh_token, "rotated");
    assert_eq!(row.scope, Some(String::new()));
}
