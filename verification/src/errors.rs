use vstd::prelude::*;

verus! {

/// The failure taxonomy of the OAuth credential manager.
///
/// `NotFound` covers an absent credential or token row, `BindError` a
/// loopback port that is already taken, `ProviderError` a non-success or
/// malformed provider response, `StateMismatch` a CSRF check failure,
/// `MissingRefreshToken` a refresh attempted without a usable refresh
/// token, and `PersistenceError` a failed store write.
#[derive(Clone, Copy, PartialEq, Eq, Structural, Debug)]
pub enum OAuthError {
    NotFound,
    BindError,
    ProviderError,
    StateMismatch,
    MissingRefreshToken,
    PersistenceError,
}

impl OAuthError {
    /// A short human-readable description, for callers that surface
    /// failures as text.
    pub fn message(&self) -> (r: &'static str)
        ensures
            r@.len() > 0,
    {
        proof {
            reveal_strlit("not found");
            reveal_strlit("failed to bind the callback port");
            reveal_strlit("provider returned an error");
            reveal_strlit("state mismatch in OAuth callback");
            reveal_strlit("no refresh token available");
            reveal_strlit("failed to access the store");
        }
        match self {
            OAuthError::NotFound => "not found",
            OAuthError::BindError => "failed to bind the callback port",
            OAuthError::ProviderError => "provider returned an error",
            OAuthError::StateMismatch => "state mismatch in OAuth callback",
            OAuthError::MissingRefreshToken => "no refresh token available",
            OAuthError::PersistenceError => "failed to access the store",
        }
    }
}

} // verus!
