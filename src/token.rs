//! What a token grants and what it is for.
use vstd::prelude::*;

verus! {

/// A permission that a token carries.
#[derive(Debug, Clone, Copy, PartialEq, Eq, Structural)]
pub enum Scope {
    Write,
    Read,
}

/// Whether a token grants access or renews it.
#[derive(Debug, Clone, Copy, PartialEq, Eq, Structural, PartialOrd, Ord)]
pub enum TokenType {
    Access,
    Refresh,
}

/// The tokens handed out on a successful login.
#[derive(Debug)]
pub struct ObtainedTokenResponse {
    pub access_token: String,
    pub refresh_token: String,
    /// Expiry, in milliseconds since the Unix epoch.
    pub expires_at: i64,
}

} // verus!
