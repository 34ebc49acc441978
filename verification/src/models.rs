use vstd::prelude::*;

verus! {

/// A user row.
#[derive(Debug)]
pub struct User {
    pub id: i64,
    pub name: String,
    pub email: String,
}

/// A stored client credential for one third-party service.
#[derive(Debug)]
pub struct ServiceCredential {
    pub id: i64,
    pub service_name: String,
    pub client_id: String,
    pub client_secret: String,
}

/// The single token row kept per credential.
#[derive(Debug)]
pub struct OauthToken {
    pub id: i64,
    pub credentials_id: i64,
    pub access_token: String,
    pub refresh_token: String,
    pub expires_at: String,
    pub scope: Option<String>,
}

/// Input for creating a credential row.
#[derive(Debug)]
pub struct AddCredentialPayload {
    pub service_name: String,
    pub client_id: String,
    pub client_secret: String,
}

/// Input for writing a token row.
#[derive(Debug)]
pub struct AddTokenPayload {
    pub credentials_id: i64,
    pub access_token: String,
    pub refresh_token: String,
    pub expires_at: String,
    pub scope: Option<String>,
}

/// What `ensure_valid_access_token` hands back to the application.
#[derive(Debug)]
pub struct AccessTokenInfo {
    pub access_token: String,
    pub expires_at: String,
}

impl Clone for User {
    fn clone(&self) -> (r: Self)
        ensures
            r == *self,
    {
        User { id: self.id, name: self.name.clone(), email: self.email.clone() }
    }
}

impl Clone for ServiceCredential {
    fn clone(&self) -> (r: Self)
        ensures
            r == *self,
    {
        ServiceCredential {
            id: self.id,
            service_name: self.service_name.clone(),
            client_id: self.client_id.clone(),
            client_secret: self.client_secret.clone(),
        }
    }
}

impl Clone for OauthToken {
    fn clone(&self) -> (r: Self)
        ensures
            r == *self,
    {
        OauthToken {
            id: self.id,
            credentials_id: self.credentials_id,
            access_token: self.access_token.clone(),
            refresh_token: self.refresh_token.clone(),
            expires_at: self.expires_at.clone(),
            scope: match &self.scope {
                Some(s) => Some(s.clone()),
                None => None,
            },
        }
    }
}

impl Clone for AccessTokenInfo {
    fn clone(&self) -> (r: Self)
        ensures
            r == *self,
    {
        AccessTokenInfo {
            access_token: self.access_token.clone(),
            expires_at: self.expires_at.clone(),
        }
    }
}

/// The row content a credential row must carry after an insert for
/// `payload`.
pub open spec fn credential_matches_payload(c: ServiceCredential, p: AddCredentialPayload) -> bool {
    &&& c.service_name@ == p.service_name@
    &&& c.client_id@ == p.client_id@
    &&& c.client_secret@ == p.client_secret@
}

/// The row content a token row must carry after an upsert for `payload`.
pub open spec fn token_matches_payload(t: OauthToken, p: AddTokenPayload) -> bool {
    &&& t.credentials_id == p.credentials_id
    &&& t.access_token@ == p.access_token@
    &&& t.refresh_token@ == p.refresh_token@
    &&& t.expires_at@ == p.expires_at@
    &&& t.scope.deep_view() == p.scope.deep_view()
}

} // verus!
