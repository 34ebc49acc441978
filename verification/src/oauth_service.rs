use vstd::prelude::*;
use vstd::string::{StrSliceExecFns, StringExecFns};

use oauth2::TokenResponse;

use crate::datetime::{
    check_refresh_required, datetime_epoch, datetime_from_epoch, epoch_limit, epoch_limit_secs,
    epoch_seconds, expiry_epoch, format_datetime, lemma_days_before_year_bounds,
    lemma_days_before_year_mono, refresh_required, DateTime,
};
use crate::errors::OAuthError;
use crate::flow::FlowState;
use crate::models::{AddTokenPayload, OauthToken, ServiceCredential};
use crate::repositories::{credential_with_id, CredentialRepository, TokenRepository};

verus! {

/// The redirect URL every flow uses: the fixed loopback port and the
/// callback path.
pub open spec fn default_redirect_url_spec() -> Seq<char> {
    "http://localhost:1421/oauth/callback"@
}

pub fn default_redirect_url() -> (r: &'static str)
    ensures
        r@ == default_redirect_url_spec(),
{
    "http://localhost:1421/oauth/callback"
}

/// The value stored in `refresh_token` when the provider's exchange
/// response carried none: a refresh against it must fail fast.
pub open spec fn refresh_token_sentinel() -> Seq<char> {
    "no_refresh_token"@
}

fn refresh_token_sentinel_string() -> (r: String)
    ensures
        r@ == refresh_token_sentinel(),
{
    String::from_str("no_refresh_token")
}

/// A stored refresh token the refresh flow may use: non-empty and not the
/// sentinel.
pub open spec fn usable_refresh_token(rt: Seq<char>) -> bool {
    rt.len() > 0 && rt != refresh_token_sentinel()
}

pub fn is_usable_refresh_token(rt: &String) -> (r: bool)
    ensures
        r == usable_refresh_token(rt@),
{
    !rt.as_str().is_empty() && !(*rt == refresh_token_sentinel_string())
}

/// The far-future expiry stored when the provider reports no lifetime.
pub open spec fn far_future() -> DateTime {
    DateTime { year: 2099, month: 12, day: 31, hour: 23, minute: 59, second: 59 }
}

/// The expiry instant stored after an exchange or refresh: `now` plus the
/// provider-reported lifetime, saturated to the representable range, or
/// the far-future instant when the provider reports none.
pub open spec fn computed_expiry_epoch(now: int, expires_in: Option<u64>) -> int {
    match expires_in {
        Some(d) => if now + d < epoch_limit() {
            now + d
        } else {
            epoch_limit() - 1
        },
        None => epoch_seconds(far_future()),
    }
}

/// Render the absolute expiry stored for a provider-reported lifetime.
pub fn expiry_string(now: u64, expires_in: Option<u64>) -> (r: String)
    requires
        now < epoch_limit(),
    ensures
        expiry_epoch(r@) == Some(computed_expiry_epoch(now as int, expires_in)),
{
    match expires_in {
        None => {
            let dt = DateTime { year: 2099, month: 12, day: 31, hour: 23, minute: 59, second: 59 };
            format_datetime(&dt)
        },
        Some(d) => {
            let limit = epoch_limit_secs();
            let e = match now.checked_add(d) {
                Some(s) => if s < limit {
                    s
                } else {
                    limit - 1
                },
                None => limit - 1,
            };
            let dt = datetime_from_epoch(e);
            format_datetime(&dt)
        },
    }
}

/// Scopes joined with single spaces, the shape of the provider's scope
/// string.
pub open spec fn joined_scopes(scopes: Seq<Seq<char>>) -> Seq<char>
    decreases scopes.len(),
{
    if scopes.len() == 0 {
        Seq::empty()
    } else if scopes.len() == 1 {
        scopes[0]
    } else {
        joined_scopes(scopes.drop_last()) + seq![' '] + scopes.last()
    }
}

/// The stored scope column for a provider response: the joined scopes, or
/// empty when the provider omitted them.
pub open spec fn scope_of_response(scopes: Option<Seq<Seq<char>>>) -> Seq<char> {
    match scopes {
        Some(v) => joined_scopes(v),
        None => Seq::empty(),
    }
}

fn join_scopes(scopes: &Option<Vec<String>>) -> (r: String)
    ensures
        r@ == scope_of_response(scopes.deep_view()),
{
    match scopes {
        None => String::new(),
        Some(v) => {
            let ghost dv = v.deep_view();
            let mut out = String::new();
            let mut i: usize = 0;
            while i < v.len()
                invariant
                    dv == v.deep_view(),
                    dv.len() == v@.len(),
                    forall|j: int| 0 <= j < v@.len() ==> dv[j] == v@[j]@,
                    i <= v@.len(),
                    out@ == joined_scopes(dv.subrange(0, i as int)),
                decreases v@.len() - i,
            {
                if i > 0 {
                    out.append(" ");
                    proof {
                        reveal_strlit(" ");
                    }
                }
                out.append(v[i].as_str());
                proof {
                    let pre = dv.subrange(0, i as int);
                    let post = dv.subrange(0, i + 1);
                    assert(post.drop_last() =~= pre);
                    assert(post.last() == dv[i as int]);
                    if i == 0 {
                        assert(out@ =~= post[0]);
                    } else {
                        assert(out@ =~= joined_scopes(pre) + seq![' '] + dv[i as int]);
                    }
                }
                i = i + 1;
            }
            proof {
                assert(dv.subrange(0, v@.len() as int) =~= dv);
            }
            out
        },
    }
}

/// The fixed scope set requested from the provider.
pub open spec fn oauth_scopes() -> Seq<Seq<char>> {
    seq![
        "https://www.googleapis.com/auth/youtube"@,
        "https://www.googleapis.com/auth/userinfo.profile"@,
        "https://www.googleapis.com/auth/userinfo.email"@,
    ]
}

fn oauth_scope_list() -> (r: Vec<String>)
    ensures
        r.deep_view() == oauth_scopes(),
{
    let mut v: Vec<String> = Vec::new();
    v.push(String::from_str("https://www.googleapis.com/auth/youtube"));
    v.push(String::from_str("https://www.googleapis.com/auth/userinfo.profile"));
    v.push(String::from_str("https://www.googleapis.com/auth/userinfo.email"));
    proof {
        assert(v.deep_view() =~= oauth_scopes());
    }
    v
}

/// A stale token refreshed with a provider-reported lifetime greater than
/// the skew gets a strictly later expiry: `save_token_response` persists a
/// row whose expiry instant is `computed_expiry_epoch(now, lifetime)`, and
/// that lies strictly beyond any old expiry at or before `now + skew`.
/// Inputs where the provider reports no lifetime, or where `now +
/// lifetime` saturates the representable range, are excluded: there the
/// new expiry is the far-future instant or the range's end, either of
/// which may precede a large enough old expiry.
pub proof fn lemma_refresh_extends_expiry(
    old_expires_at: Seq<char>,
    e_old: int,
    now: int,
    skew: int,
    lifetime: u64,
)
    requires
        expiry_epoch(old_expires_at) == Some(e_old),
        e_old <= now + skew,
        0 <= skew,
        skew < lifetime,
        now + lifetime < epoch_limit(),
    ensures
        computed_expiry_epoch(now, Some(lifetime)) > e_old,
{
}

/// The fields of a provider token response that the library consumes.
#[derive(Debug)]
pub struct TokenResponseData {
    pub access_token: String,
    pub refresh_token: Option<String>,
    pub expires_in_secs: Option<u64>,
    pub scopes: Option<Vec<String>>,
}

/// An oauth2 client for the provider, opaque to the verifier. It holds the
/// outside crate's `BasicClient`, whose generic declaration Verus refuses
/// for its outside trait bounds.
#[verifier::external_body]
struct ProviderClient {
    inner: oauth2::basic::BasicClient,
}

/// Whether `url::Url::parse` accepts a redirect URL string: the one check
/// `oauth2::RedirectUrl::new` performs, a function of the string alone.
pub uninterp spec fn redirect_accepted(redirect_url: Seq<char>) -> bool;

/// Relies on oauth2::basic::BasicClient::new and the URL newtypes: builds
/// the provider client for a credential against Google's fixed endpoints,
/// which always parse; it fails exactly when the redirect URL does not.
#[verifier::external_body]
fn create_google_oauth_client(credential: &ServiceCredential, redirect_url: &str) -> (r: Result<
    ProviderClient,
    OAuthError,
>)
    ensures
        r matches Err(e) ==> e == OAuthError::ProviderError,
        r is Err <==> !redirect_accepted(redirect_url@),
{
    let auth_url = oauth2::AuthUrl::new("https://accounts.google.com/o/oauth2/v2/auth".to_string())
        .map_err(|_| OAuthError::ProviderError)?;
    let token_url = oauth2::TokenUrl::new("https://oauth2.googleapis.com/token".to_string())
        .map_err(|_| OAuthError::ProviderError)?;
    let redirect = oauth2::RedirectUrl::new(redirect_url.to_string())
        .map_err(|_| OAuthError::ProviderError)?;
    let client_id = oauth2::ClientId::new(credential.client_id.clone());
    let client_secret = Some(oauth2::ClientSecret::new(credential.client_secret.clone()));
    let inner = oauth2::basic::BasicClient::new(client_id, client_secret, auth_url, Some(token_url))
        .set_redirect_uri(redirect);
    Ok(ProviderClient { inner })
}

/// What oauth2's `authorize_url`/`url` chain yields for a Google client:
/// a consent URL that is a function of the client id, the redirect URL,
/// the scopes and the CSRF state embedded in it.
pub uninterp spec fn authorize_url_of(
    client_id: Seq<char>,
    redirect_url: Seq<char>,
    scopes: Seq<Seq<char>>,
    state: Seq<char>,
) -> Seq<char>;

/// Relies on oauth2's Client::authorize_url with CsrfToken::new_random:
/// the returned consent URL is the above function of the configuration and
/// of the freshly drawn state, and the state is the URL-safe base64 of 16
/// random bytes, 22 characters. The fixed endpoint always parses, so the
/// call fails exactly when the redirect URL is not accepted.
#[verifier::external_body]
fn google_authorize_url(
    client_id: &String,
    client_secret: &String,
    redirect_url: &str,
    scopes: &Vec<String>,
) -> (r: Result<(String, String), OAuthError>)
    ensures
        r matches Ok(pair) ==> pair.0@ == authorize_url_of(
            client_id@,
            redirect_url@,
            scopes.deep_view(),
            pair.1@,
        ) && pair.1@.len() == 22,
        r matches Err(e) ==> e == OAuthError::ProviderError,
        r is Err <==> !redirect_accepted(redirect_url@),
{
    let auth_url = oauth2::AuthUrl::new("https://accounts.google.com/o/oauth2/v2/auth".to_string())
        .map_err(|_| OAuthError::ProviderError)?;
    let redirect = oauth2::RedirectUrl::new(redirect_url.to_string())
        .map_err(|_| OAuthError::ProviderError)?;
    let id = oauth2::ClientId::new(client_id.clone());
    let secret = Some(oauth2::ClientSecret::new(client_secret.clone()));
    let client = oauth2::basic::BasicClient::new(id, secret, auth_url, None)
        .set_redirect_uri(redirect);
    let mut request = client.authorize_url(oauth2::CsrfToken::new_random);
    for s in scopes.iter() {
        request = request.add_scope(oauth2::Scope::new(s.clone()));
    }
    let (url, csrf) = request.url();
    Ok((url.to_string(), csrf.secret().clone()))
}

/// Relies on oauth2's CodeTokenRequest::request with the blocking reqwest
/// client: one provider round trip; nothing is assumed of the outcome.
#[verifier::external_body]
fn request_code_exchange(client: &ProviderClient, code: String) -> (r: Result<
    TokenResponseData,
    OAuthError,
>)
    ensures
        r matches Err(e) ==> e == OAuthError::ProviderError,
{
    match client.inner.exchange_code(oauth2::AuthorizationCode::new(code)).request(
        oauth2::reqwest::http_client,
    ) {
        Ok(t) => Ok(TokenResponseData {
            access_token: t.access_token().secret().clone(),
            refresh_token: t.refresh_token().map(|rt| rt.secret().clone()),
            expires_in_secs: t.expires_in().map(|d| d.as_secs()),
            scopes: t.scopes().map(|v| v.iter().map(|s| s.to_string()).collect()),
        }),
        Err(_) => Err(OAuthError::ProviderError),
    }
}

/// Relies on oauth2's RefreshTokenRequest::request with the blocking
/// reqwest client: one provider round trip; nothing is assumed of the
/// outcome.
#[verifier::external_body]
fn request_refresh_exchange(client: &ProviderClient, refresh_token: String) -> (r: Result<
    TokenResponseData,
    OAuthError,
>)
    ensures
        r matches Err(e) ==> e == OAuthError::ProviderError,
{
    match client.inner.exchange_refresh_token(&oauth2::RefreshToken::new(refresh_token)).request(
        oauth2::reqwest::http_client,
    ) {
        Ok(t) => Ok(TokenResponseData {
            access_token: t.access_token().secret().clone(),
            refresh_token: t.refresh_token().map(|rt| rt.secret().clone()),
            expires_in_secs: t.expires_in().map(|d| d.as_secs()),
            scopes: t.scopes().map(|v| v.iter().map(|s| s.to_string()).collect()),
        }),
        Err(_) => Err(OAuthError::ProviderError),
    }
}

/// Relies on chrono's Utc::now: the current time as Unix seconds; no
/// property of the value is assumed.
#[verifier::external_body]
fn current_unix_time() -> i64 {
    chrono::Utc::now().timestamp()
}

/// Unix seconds mapped onto the library's year-0 epoch, saturated to the
/// representable range.
pub open spec fn clamped_epoch_of_unix(unix: int) -> int {
    let shifted = unix + crate::datetime::days_before_year(1970) * 86400;
    if shifted < 0 {
        0
    } else if shifted >= epoch_limit() {
        epoch_limit() - 1
    } else {
        shifted
    }
}

pub fn now_epoch_from_unix(unix: i64) -> (r: u64)
    ensures
        r == clamped_epoch_of_unix(unix as int),
        r < epoch_limit(),
{
    let base_dt = DateTime { year: 1970, month: 1, day: 1, hour: 0, minute: 0, second: 0 };
    let base = datetime_epoch(&base_dt);
    let limit = epoch_limit_secs();
    proof {
        lemma_days_before_year_bounds(1970);
        lemma_days_before_year_bounds(10000);
        lemma_days_before_year_mono(1970, 10000);
    }
    if unix >= 0 {
        let s = base + (unix as u64);
        if s >= limit {
            limit - 1
        } else {
            s
        }
    } else {
        let neg = ((-(unix + 1)) as u64) + 1;
        if neg >= base {
            0
        } else {
            base - neg
        }
    }
}

/// The current instant on the library's clock, always in range.
pub fn current_now() -> (r: u64)
    ensures
        r < epoch_limit(),
{
    now_epoch_from_unix(current_unix_time())
}

/// The OAuth flow and token lifecycle over pluggable stores.
pub struct OAuthService<R: CredentialRepository, S: TokenRepository> {
    pub credential_repo: R,
    pub token_repo: S,
}

/// What a refresh leaves behind, for any provider outcome: on success the
/// single row for the credential is overwritten in place with the new
/// access token and a parseable expiry no earlier than `now` (unless
/// saturated or defaulted to the far future); on failure nothing changes,
/// and `NotFound` arises exactly when the credential or its token row is
/// absent.
pub open spec fn refresh_post<R: CredentialRepository, S: TokenRepository>(
    pre: OAuthService<R, S>,
    post: OAuthService<R, S>,
    credential_id: i64,
    now: int,
    r: Result<(String, String), OAuthError>,
) -> bool {
    let key = credential_id as int;
    let stored = pre.token_repo.tokens();
    &&& (credential_with_id(pre.credential_repo.credentials(), key) is None ==> r == Err::<
        (String, String),
        OAuthError,
    >(OAuthError::NotFound))
    &&& (credential_with_id(pre.credential_repo.credentials(), key) is Some
        && !stored.contains_key(key) ==> r == Err::<(String, String), OAuthError>(
        OAuthError::NotFound,
    ))
    &&& match r {
        Ok(pair) => {
            &&& stored.contains_key(key)
            &&& credential_with_id(pre.credential_repo.credentials(), key) is Some
            &&& post.token_repo.tokens() == stored.insert(key, post.token_repo.tokens()[key])
            &&& {
                let row = post.token_repo.tokens()[key];
                &&& row.credentials_id == credential_id
                &&& row.id == stored[key].id
                &&& row.access_token@ == pair.0@
                &&& row.expires_at@ == pair.1@
                &&& row.scope is Some
                &&& match expiry_epoch(row.expires_at@) {
                    Some(e) => e >= now || e == epoch_seconds(far_future()) || e == epoch_limit()
                        - 1,
                    None => false,
                }
            }
        },
        Err(e) => {
            &&& e == OAuthError::NotFound || e == OAuthError::ProviderError || e
                == OAuthError::PersistenceError
            &&& e == OAuthError::NotFound ==> credential_with_id(
                pre.credential_repo.credentials(),
                key,
            ) is None || !stored.contains_key(key)
            &&& post.token_repo.tokens() == stored
        },
    }
}

impl<R: CredentialRepository, S: TokenRepository> OAuthService<R, S> {
    /// Both stores well-formed.
    pub open spec fn wf(&self) -> bool {
        &&& self.credential_repo.wf()
        &&& self.token_repo.wf()
    }

    pub fn new(credential_repo: R, token_repo: S) -> (r: Self)
        ensures
            r.credential_repo == credential_repo,
            r.token_repo == token_repo,
    {
        OAuthService { credential_repo, token_repo }
    }

    /// Build the provider consent URL for a credential, with a fresh CSRF
    /// state value. Fails `NotFound` exactly when the credential is absent
    /// and `ProviderError` exactly when the redirect URL does not parse;
    /// otherwise success is owed. No persistence, no network round trip.
    pub fn generate_auth_url(&self, credential_id: i64, redirect_url: &str) -> (r: Result<
        (String, String),
        OAuthError,
    >)
        requires
            self.credential_repo.wf(),
        ensures
            match r {
                Ok(pair) => credential_with_id(self.credential_repo.credentials(), credential_id as int)
                    matches Some(c) && pair.0@ == authorize_url_of(
                    c.client_id@,
                    redirect_url@,
                    oauth_scopes(),
                    pair.1@,
                ) && pair.1@.len() == 22,
                Err(OAuthError::NotFound) => credential_with_id(
                    self.credential_repo.credentials(),
                    credential_id as int,
                ) is None,
                Err(OAuthError::ProviderError) => credential_with_id(
                    self.credential_repo.credentials(),
                    credential_id as int,
                ) is Some && !redirect_accepted(redirect_url@),
                Err(_) => false,
            },
            credential_with_id(self.credential_repo.credentials(), credential_id as int) is Some
                && redirect_accepted(redirect_url@) ==> r is Ok,
    {
        let cred = match self.credential_repo.get_credential_by_id(credential_id) {
            Ok(Some(c)) => c,
            Ok(None) => {
                return Err(OAuthError::NotFound);
            },
            Err(_) => {
                return Err(OAuthError::PersistenceError);
            },
        };
        let scopes = oauth_scope_list();
        google_authorize_url(&cred.client_id, &cred.client_secret, redirect_url, &scopes)
    }

    /// The synchronous part of starting a flow: the consent URL together
    /// with the flow state holding the expected CSRF value embedded in it.
    /// Success is owed whenever the credential exists and the redirect URL
    /// parses. The listener and the exchange run as detached background
    /// work fed by `flow_step`.
    pub fn start_oauth_flow(&self, credential_id: i64, redirect_url: &str) -> (r: Result<
        (String, FlowState),
        OAuthError,
    >)
        requires
            self.credential_repo.wf(),
        ensures
            match r {
                Ok(pair) => credential_with_id(self.credential_repo.credentials(), credential_id as int)
                    matches Some(c) && pair.1 matches FlowState::AuthUrlIssued { expected_state }
                    && pair.0@ == authorize_url_of(
                    c.client_id@,
                    redirect_url@,
                    oauth_scopes(),
                    expected_state@,
                ),
                Err(OAuthError::NotFound) => credential_with_id(
                    self.credential_repo.credentials(),
                    credential_id as int,
                ) is None,
                Err(OAuthError::ProviderError) => credential_with_id(
                    self.credential_repo.credentials(),
                    credential_id as int,
                ) is Some && !redirect_accepted(redirect_url@),
                Err(_) => false,
            },
            credential_with_id(self.credential_repo.credentials(), credential_id as int) is Some
                && redirect_accepted(redirect_url@) ==> r is Ok,
    {
        match self.generate_auth_url(credential_id, redirect_url) {
            Ok((auth_url, expected_state)) => Ok(
                (auth_url, FlowState::AuthUrlIssued { expected_state }),
            ),
            Err(e) => Err(e),
        }
    }

    /// Persist a provider token response as the single row for the
    /// credential. When the response carries no refresh token the fallback
    /// is stored instead: the sentinel after a code exchange, the previous
    /// token after a refresh.
    pub fn save_token_response(
        &mut self,
        credential_id: i64,
        response: TokenResponseData,
        fallback_refresh: String,
        now: u64,
    ) -> (r: Result<OauthToken, OAuthError>)
        requires
            old(self).token_repo.wf(),
            now < epoch_limit(),
        ensures
            final(self).token_repo.wf(),
            final(self).credential_repo == old(self).credential_repo,
            match r {
                Ok(t) => {
                    &&& final(self).token_repo.tokens() == old(self).token_repo.tokens().insert(
                        credential_id as int,
                        t,
                    )
                    &&& t.credentials_id == credential_id
                    &&& t.access_token@ == response.access_token@
                    &&& t.refresh_token@ == match response.refresh_token {
                        Some(nt) => nt@,
                        None => fallback_refresh@,
                    }
                    &&& expiry_epoch(t.expires_at@) == Some(
                        computed_expiry_epoch(now as int, response.expires_in_secs),
                    )
                    &&& t.scope matches Some(sc) && sc@ == scope_of_response(
                        response.scopes.deep_view(),
                    )
                    &&& old(self).token_repo.tokens().contains_key(credential_id as int) ==> t.id
                        == old(self).token_repo.tokens()[credential_id as int].id
                },
                Err(e) => e == OAuthError::PersistenceError && final(self).token_repo.tokens()
                    == old(self).token_repo.tokens(),
            },
    {
        let TokenResponseData { access_token, refresh_token, expires_in_secs, scopes } = response;
        let expires_at = expiry_string(now, expires_in_secs);
        let refresh = match refresh_token {
            Some(nt) => nt,
            None => fallback_refresh,
        };
        let scope = join_scopes(&scopes);
        let payload = AddTokenPayload {
            credentials_id: credential_id,
            access_token,
            refresh_token: refresh,
            expires_at,
            scope: Some(scope),
        };
        match self.token_repo.upsert_token(payload) {
            Ok(t) => Ok(t),
            Err(_) => Err(OAuthError::PersistenceError),
        }
    }

    /// Trade an authorization code for tokens and persist them as the
    /// single row for the credential. A response without a refresh token
    /// stores the sentinel. Fails `NotFound` exactly when the credential is
    /// absent; on any failure the store is unchanged.
    pub fn exchange_code_and_save_token(
        &mut self,
        code: String,
        credential_id: i64,
        redirect_url: &str,
    ) -> (r: Result<(), OAuthError>)
        requires
            old(self).wf(),
        ensures
            final(self).wf(),
            final(self).credential_repo == old(self).credential_repo,
            credential_with_id(old(self).credential_repo.credentials(), credential_id as int)
                is None <==> r == Err::<(), OAuthError>(OAuthError::NotFound),
            match r {
                Ok(_) => {
                    &&& final(self).token_repo.tokens() == old(self).token_repo.tokens().insert(
                        credential_id as int,
                        final(self).token_repo.tokens()[credential_id as int],
                    )
                    &&& {
                        let row = final(self).token_repo.tokens()[credential_id as int];
                        &&& row.credentials_id == credential_id
                        &&& expiry_epoch(row.expires_at@) is Some
                        &&& row.scope is Some
                        &&& old(self).token_repo.tokens().contains_key(credential_id as int)
                            ==> row.id == old(self).token_repo.tokens()[credential_id as int].id
                    }
                },
                Err(e) => (e == OAuthError::NotFound || e == OAuthError::ProviderError || e
                    == OAuthError::PersistenceError) && final(self).token_repo.tokens() == old(
                    self,
                ).token_repo.tokens(),
            },
    {
        let cred = match self.credential_repo.get_credential_by_id(credential_id) {
            Ok(Some(c)) => c,
            Ok(None) => {
                return Err(OAuthError::NotFound);
            },
            Err(_) => {
                return Err(OAuthError::PersistenceError);
            },
        };
        let client = match create_google_oauth_client(&cred, redirect_url) {
            Ok(c) => c,
            Err(_) => {
                return Err(OAuthError::ProviderError);
            },
        };
        let response = match request_code_exchange(&client, code) {
            Ok(resp) => resp,
            Err(_) => {
                return Err(OAuthError::ProviderError);
            },
        };
        let now = current_now();
        match self.save_token_response(credential_id, response, refresh_token_sentinel_string(), now) {
            Ok(_) => Ok(()),
            Err(e) => Err(e),
        }
    }

    /// Refresh the stored token through the provider's refresh grant at
    /// instant `now` and persist the result, retaining the previous refresh
    /// token when the provider returns none.
    pub fn refresh_access_token_at(&mut self, credential_id: i64, now: u64) -> (r: Result<
        (String, String),
        OAuthError,
    >)
        requires
            old(self).wf(),
            now < epoch_limit(),
        ensures
            final(self).wf(),
            final(self).credential_repo == old(self).credential_repo,
            refresh_post(*old(self), *final(self), credential_id, now as int, r),
    {
        let cred = match self.credential_repo.get_credential_by_id(credential_id) {
            Ok(Some(c)) => c,
            Ok(None) => {
                return Err(OAuthError::NotFound);
            },
            Err(_) => {
                return Err(OAuthError::PersistenceError);
            },
        };
        let current = match self.token_repo.get_token_by_credential_id(credential_id) {
            Ok(Some(t)) => t,
            Ok(None) => {
                return Err(OAuthError::NotFound);
            },
            Err(_) => {
                return Err(OAuthError::PersistenceError);
            },
        };
        let client = match create_google_oauth_client(&cred, default_redirect_url()) {
            Ok(c) => c,
            Err(_) => {
                return Err(OAuthError::ProviderError);
            },
        };
        let response = match request_refresh_exchange(&client, current.refresh_token.clone()) {
            Ok(resp) => resp,
            Err(_) => {
                return Err(OAuthError::ProviderError);
            },
        };
        let saved = match self.save_token_response(
            credential_id,
            response,
            current.refresh_token,
            now,
        ) {
            Ok(t) => t,
            Err(e) => {
                return Err(e);
            },
        };
        Ok((saved.access_token, saved.expires_at))
    }

    /// As `refresh_access_token_at`, at the current instant.
    pub fn refresh_access_token(&mut self, credential_id: i64) -> (r: Result<
        (String, String),
        OAuthError,
    >)
        requires
            old(self).wf(),
        ensures
            final(self).wf(),
            final(self).credential_repo == old(self).credential_repo,
            r == Err::<(String, String), OAuthError>(OAuthError::NotFound) <==> credential_with_id(
                old(self).credential_repo.credentials(),
                credential_id as int,
            ) is None || !old(self).token_repo.tokens().contains_key(credential_id as int),
            r is Err ==> final(self).token_repo.tokens() == old(self).token_repo.tokens(),
            r matches Ok(_) ==> old(self).token_repo.tokens().contains_key(credential_id as int)
                && final(self).token_repo.tokens() == old(self).token_repo.tokens().insert(
                credential_id as int,
                final(self).token_repo.tokens()[credential_id as int],
            ),
    {
        let now = current_now();
        self.refresh_access_token_at(credential_id, now)
    }

    /// The token lifecycle decision at instant `now`: return the stored
    /// pair unchanged while it is fresh; once stale, refresh only over a
    /// usable refresh token, failing `MissingRefreshToken` without any
    /// network round trip otherwise.
    pub fn ensure_valid_access_token_at(
        &mut self,
        credential_id: i64,
        skew_secs: u64,
        now: u64,
    ) -> (r: Result<(String, String), OAuthError>)
        requires
            old(self).wf(),
            now < epoch_limit(),
        ensures
            final(self).wf(),
            final(self).credential_repo == old(self).credential_repo,
            ({
                let key = credential_id as int;
                let stored = old(self).token_repo.tokens();
                &&& (!stored.contains_key(key) ==> r == Err::<(String, String), OAuthError>(
                    OAuthError::NotFound,
                ) && final(self).token_repo.tokens() == stored)
                &&& (stored.contains_key(key) && !refresh_required(
                    stored[key].expires_at@,
                    now as int,
                    skew_secs as int,
                ) ==> (r matches Ok(pair) && pair.0@ == stored[key].access_token@ && pair.1@
                    == stored[key].expires_at@ && final(self).token_repo.tokens() == stored))
                &&& (stored.contains_key(key) && refresh_required(
                    stored[key].expires_at@,
                    now as int,
                    skew_secs as int,
                ) && !usable_refresh_token(stored[key].refresh_token@) ==> r == Err::<
                    (String, String),
                    OAuthError,
                >(OAuthError::MissingRefreshToken) && final(self).token_repo.tokens() == stored)
                &&& (stored.contains_key(key) && refresh_required(
                    stored[key].expires_at@,
                    now as int,
                    skew_secs as int,
                ) && usable_refresh_token(stored[key].refresh_token@) ==> refresh_post(
                    *old(self),
                    *final(self),
                    credential_id,
                    now as int,
                    r,
                ))
            }),
    {
        let token = match self.token_repo.get_token_by_credential_id(credential_id) {
            Ok(Some(t)) => t,
            Ok(None) => {
                return Err(OAuthError::NotFound);
            },
            Err(_) => {
                return Err(OAuthError::PersistenceError);
            },
        };
        let need_refresh = check_refresh_required(token.expires_at.as_str(), now, skew_secs);
        if !need_refresh {
            return Ok((token.access_token, token.expires_at));
        }
        if !is_usable_refresh_token(&token.refresh_token) {
            return Err(OAuthError::MissingRefreshToken);
        }
        self.refresh_access_token_at(credential_id, now)
    }

    /// As `ensure_valid_access_token_at`, at the current instant.
    pub fn ensure_valid_access_token(&mut self, credential_id: i64, skew_secs: u64) -> (r: Result<
        (String, String),
        OAuthError,
    >)
        requires
            old(self).wf(),
        ensures
            final(self).wf(),
            final(self).credential_repo == old(self).credential_repo,
            !old(self).token_repo.tokens().contains_key(credential_id as int) ==> r == Err::<
                (String, String),
                OAuthError,
            >(OAuthError::NotFound),
            r == Err::<(String, String), OAuthError>(OAuthError::NotFound) ==> !old(
                self,
            ).token_repo.tokens().contains_key(credential_id as int) || credential_with_id(
                old(self).credential_repo.credentials(),
                credential_id as int,
            ) is None,
            r is Err ==> final(self).token_repo.tokens() == old(self).token_repo.tokens(),
            r == Err::<(String, String), OAuthError>(OAuthError::MissingRefreshToken) ==> old(
                self,
            ).token_repo.tokens().contains_key(credential_id as int) && !usable_refresh_token(
                old(self).token_repo.tokens()[credential_id as int].refresh_token@,
            ),
            r matches Ok(_) ==> old(self).token_repo.tokens().contains_key(credential_id as int)
                && (final(self).token_repo.tokens() == old(self).token_repo.tokens()
                || final(self).token_repo.tokens() == old(self).token_repo.tokens().insert(
                credential_id as int,
                final(self).token_repo.tokens()[credential_id as int],
            )),
    {
        let now = current_now();
        self.ensure_valid_access_token_at(credential_id, skew_secs, now)
    }
}

} // verus!
