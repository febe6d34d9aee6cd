//! The decisions of the authenticated HTTP client: the request URL and
//! headers, when to renew the session, what a renewal reply leads to, and
//! how an API reply is read.

use vstd::prelude::*;
use crate::credentials::Credentials;
use crate::error::CliError;
use crate::json::{str_field_or, JsonValue};
use crate::text::{concat, str_equal};

verus! {

/// The value of the `X-API-Version` header sent with every request.
pub const API_VERSION: &'static str = "1";

/// The HTTP status that asks for a renewed session.
pub const UNAUTHORIZED: u16 = 401;

/// The full URL of an API path: the backend's base URL followed by the path.
pub fn request_url(backend: &str, path: &str) -> (r: String)
    ensures
        r@ == backend@ + path@,
{
    concat(backend, path)
}

/// The `Authorization` header value for an access token.
pub fn bearer_header(access_token: &str) -> (r: String)
    ensures
        r@ == "Bearer "@ + access_token@,
{
    concat("Bearer ", access_token)
}

/// What to do with an answer to an authenticated request.
#[derive(Debug, Clone, Copy, PartialEq, Eq)]
pub enum AnswerStep {
    /// Hand the answer to the caller.
    Deliver,
    /// Renew the session, then send the request once more.
    RenewAndResend,
}

/// Decides what to do with an answer of status `status`, given whether the
/// session was already renewed for this request. Only a `401` to a request
/// not yet retried asks for a renewal, so a request is sent at most twice;
/// every other answer is delivered as it is.
pub fn answer_step(renewed: bool, status: u16) -> (r: AnswerStep)
    ensures
        r == (if !renewed && status == UNAUTHORIZED {
            AnswerStep::RenewAndResend
        } else {
            AnswerStep::Deliver
        }),
{
    if !renewed && status == UNAUTHORIZED {
        AnswerStep::RenewAndResend
    } else {
        AnswerStep::Deliver
    }
}

/// The reply of `/auth/refresh`, as far as the client reads it.
#[derive(Debug, Clone, PartialEq, Eq)]
pub struct RefreshReply {
    pub status: String,
    pub access_token: Option<String>,
    pub refresh_token: Option<String>,
}

/// What a renewal attempt leads to.
#[derive(Debug, Clone, PartialEq, Eq)]
pub enum RefreshOutcome {
    /// New credentials, to be stored and used for the retry.
    Renewed(Credentials),
    /// The session is over; when `forget_stored` holds, the stored
    /// credentials are to be deleted.
    Expired { forget_stored: bool },
}

/// Decides what a renewal reply means, given the credentials it renews.
/// An unreadable reply (`None`) or one without both tokens ends the session
/// and keeps the stored credentials; a status other than `"success"` ends
/// it and forgets them; otherwise the new token pair replaces the old one
/// and the user name stays.
pub fn refresh_outcome(old: &Credentials, reply: Option<RefreshReply>) -> (r: RefreshOutcome)
    ensures
        match reply {
            None => r == RefreshOutcome::Expired { forget_stored: false },
            Some(rep) => if rep.status@ != "success"@ {
                r == RefreshOutcome::Expired { forget_stored: true }
            } else {
                match (rep.access_token, rep.refresh_token) {
                    (Some(a), Some(t)) => r matches RefreshOutcome::Renewed(c) && c.access_token
                        == a && c.refresh_token == t && c.username@ == old.username@,
                    _ => r == RefreshOutcome::Expired { forget_stored: false },
                }
            },
        },
{
    match reply {
        None => RefreshOutcome::Expired { forget_stored: false },
        Some(rep) => {
            if !str_equal(rep.status.as_str(), "success") {
                return RefreshOutcome::Expired { forget_stored: true };
            }
            match (rep.access_token, rep.refresh_token) {
                (Some(a), Some(t)) => RefreshOutcome::Renewed(
                    Credentials::new(a, t, old.username.clone()),
                ),
                _ => RefreshOutcome::Expired { forget_stored: false },
            }
        },
    }
}

/// Reads an API reply: its HTTP status and its body as JSON (`None` when
/// the body is not JSON). An unreadable body fails; a status of 400 or more
/// fails with the body's `message` (or `Unknown error`); any other reply
/// gives its body.
pub fn interpret_response(status: u16, body: Option<JsonValue>) -> (r: Result<
    JsonValue,
    CliError,
>)
    ensures
        match body {
            None => r matches Err(CliError::Api(m)) && m@ == "Failed to parse response"@,
            Some(v) => if status >= 400 {
                r matches Err(CliError::Api(m)) && m@ == str_field_or(v, "message"@, "Unknown error"@)
            } else {
                r == Ok::<JsonValue, CliError>(v)
            },
        },
{
    match body {
        None => Err(CliError::Api(String::from_str("Failed to parse response"))),
        Some(v) => {
            if status >= 400 {
                Err(CliError::Api(v.str_field_or("message", "Unknown error")))
            } else {
                Ok(v)
            }
        },
    }
}

} // verus!
