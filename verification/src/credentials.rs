//! The session credentials that the client keeps between commands.

use vstd::prelude::*;

verus! {

/// The authenticated user's session: the token pair and the user's name.
#[derive(Debug, Clone, PartialEq, Eq)]
pub struct Credentials {
    pub access_token: String,
    pub refresh_token: String,
    pub username: String,
}

impl Credentials {
    /// Credentials made of the three given values.
    pub fn new(access_token: String, refresh_token: String, username: String) -> (r: Self)
        ensures
            r.access_token == access_token,
            r.refresh_token == refresh_token,
            r.username == username,
    {
        Credentials { access_token, refresh_token, username }
    }
}

} // verus!
