//! The error taxonomy. Every failure aborts the enclosing operation;
//! no partial results are returned alongside an error.

use vstd::prelude::*;

verus! {

/// Everything that can go wrong while recovering credentials, authenticating,
/// calling the API, or touching the cache.
#[derive(Clone, Copy, Debug, PartialEq, Eq, Structural)]
pub enum SlackError {
    /// No secret-store entry matched any candidate account name.
    CredentialNotFound,
    /// The last decrypted byte names more padding bytes than the buffer holds.
    InvalidPadding,
    /// The decrypted cookie does not contain the session-token marker.
    MarkerNotFound,
    /// The decrypted buffer was empty before the marker scan.
    EmptyPayload,
    /// The authentication request could not reach the workspace.
    AuthenticationNetworkError,
    /// The workspace page did not embed an API token.
    TokenNotFound,
    /// The API answered with a non-success transport status.
    HttpError(u16),
    /// A response or a buffer did not have the expected shape.
    DecodeError,
    /// The cache could not be read or written.
    CacheError,
}

impl SlackError {
    /// A short name for the error, for callers that print it.
    pub fn describe(&self) -> (s: &'static str)
        ensures
            s@ == match *self {
                SlackError::CredentialNotFound => "credential not found"@,
                SlackError::InvalidPadding => "invalid padding length"@,
                SlackError::MarkerNotFound => "session token marker not found"@,
                SlackError::EmptyPayload => "empty decrypted payload"@,
                SlackError::AuthenticationNetworkError => "authentication request failed"@,
                SlackError::TokenNotFound => "api token not found in response"@,
                SlackError::HttpError(_) => "http error"@,
                SlackError::DecodeError => "malformed response"@,
                SlackError::CacheError => "cache error"@,
            },
    {
        match *self {
            SlackError::CredentialNotFound => "credential not found",
            SlackError::InvalidPadding => "invalid padding length",
            SlackError::MarkerNotFound => "session token marker not found",
            SlackError::EmptyPayload => "empty decrypted payload",
            SlackError::AuthenticationNetworkError => "authentication request failed",
            SlackError::TokenNotFound => "api token not found in response",
            SlackError::HttpError(_) => "http error",
            SlackError::DecodeError => "malformed response",
            SlackError::CacheError => "cache error",
        }
    }
}

} // verus!
