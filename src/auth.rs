//! Accounts and session markers.
use vstd::prelude::*;

pub use crate::model::fallback::User;

verus! {

/// Name of the cookie that carries the session marker.
pub const AUTH_TOKEN: &'static str = "auth-token";

/// The claims a session token carries: the account address and the expiry,
/// in seconds since the Unix epoch.
#[derive(Debug)]
pub struct Claims {
    pub address: String,
    pub exp: u64,
}

/// Whether a request presented a session marker. The marker's content is
/// checked by the authentication collaborator, not here.
pub fn has_session(token: &Option<String>) -> (r: bool)
    ensures
        r == (token is Some),
{
    token.is_some()
}

} // verus!
