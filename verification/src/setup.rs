use vstd::prelude::*;

use crate::credential_service::CredentialService;
use crate::models::{OauthToken, ServiceCredential};
use crate::oauth_service::OAuthService;
use crate::repositories::{
    CredentialRepository, InMemoryCredentialRepository, InMemoryTokenRepository, TokenRepository,
};

verus! {

/// The assembled application services over the library's stores.
pub struct AppState {
    pub credential_service: CredentialService<InMemoryCredentialRepository>,
    pub oauth_service: OAuthService<InMemoryCredentialRepository, InMemoryTokenRepository>,
}

/// Build the services over fresh, empty stores.
pub fn init() -> (r: AppState)
    ensures
        r.credential_service.repo.wf(),
        r.credential_service.repo.credentials() == Seq::<ServiceCredential>::empty(),
        r.oauth_service.wf(),
        r.oauth_service.credential_repo.credentials() == Seq::<ServiceCredential>::empty(),
        r.oauth_service.token_repo.tokens() == Map::<int, OauthToken>::empty(),
{
    let credential_service = CredentialService::new(InMemoryCredentialRepository::new());
    let oauth_service = OAuthService::new(
        InMemoryCredentialRepository::new(),
        InMemoryTokenRepository::new(),
    );
    AppState { credential_service, oauth_service }
}

} // verus!
