use vstd::prelude::*;

use crate::errors::OAuthError;
use crate::models::AccessTokenInfo;
use crate::oauth_service::{usable_refresh_token, OAuthService};
use crate::repositories::{credential_with_id, CredentialRepository, TokenRepository};

verus! {

/// A caller-supplied skew clamped to zero or more seconds.
pub open spec fn clamped_skew(s: int) -> int {
    if s < 0 {
        0
    } else {
        s
    }
}

pub fn clamp_skew(skew_secs: i64) -> (r: u64)
    ensures
        r == clamped_skew(skew_secs as int),
{
    if skew_secs < 0 {
        0
    } else {
        skew_secs as u64
    }
}

/// The command-level entry for the token lifecycle: clamps a possibly
/// negative skew to zero and packages the returned pair.
pub fn ensure_valid_access_token<R: CredentialRepository, S: TokenRepository>(
    service: &mut OAuthService<R, S>,
    credential_id: i64,
    skew_secs: i64,
) -> (r: Result<AccessTokenInfo, OAuthError>)
    requires
        old(service).wf(),
    ensures
        final(service).wf(),
        final(service).credential_repo == old(service).credential_repo,
        !old(service).token_repo.tokens().contains_key(credential_id as int) ==> r == Err::<
            AccessTokenInfo,
            OAuthError,
        >(OAuthError::NotFound),
        r == Err::<AccessTokenInfo, OAuthError>(OAuthError::NotFound) ==> !old(
            service,
        ).token_repo.tokens().contains_key(credential_id as int) || credential_with_id(
            old(service).credential_repo.credentials(),
            credential_id as int,
        ) is None,
        r is Err ==> final(service).token_repo.tokens() == old(service).token_repo.tokens(),
        r == Err::<AccessTokenInfo, OAuthError>(OAuthError::MissingRefreshToken) ==> old(
            service,
        ).token_repo.tokens().contains_key(credential_id as int) && !usable_refresh_token(
            old(service).token_repo.tokens()[credential_id as int].refresh_token@,
        ),
        r matches Ok(_) ==> old(service).token_repo.tokens().contains_key(credential_id as int)
            && (final(service).token_repo.tokens() == old(service).token_repo.tokens()
            || final(service).token_repo.tokens() == old(service).token_repo.tokens().insert(
            credential_id as int,
            final(service).token_repo.tokens()[credential_id as int],
        )),
{
    let skew = clamp_skew(skew_secs);
    match service.ensure_valid_access_token(credential_id, skew) {
        Ok((access_token, expires_at)) => Ok(AccessTokenInfo { access_token, expires_at }),
        Err(e) => Err(e),
    }
}

} // verus!
