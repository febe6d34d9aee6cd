//! The errors that the client reports to its user.

use vstd::prelude::*;

verus! {

/// Every failure that a command can end in.
#[derive(Debug, Clone, PartialEq, Eq)]
pub enum CliError {
    /// No stored credentials: the user has to run `insighta login`.
    NotLoggedIn,
    /// The session has expired and could not be renewed.
    TokenExpired,
    /// The API answered with an error, or with a reply the client cannot use.
    Api(String),
    /// A local input or output operation failed; the text is the system's
    /// description of the failure.
    Io(String),
    /// An HTTP request failed; the text is the HTTP client's description.
    Http(String),
}

/// The text shown for an error.
pub open spec fn error_message(e: CliError) -> Seq<char> {
    match e {
        CliError::NotLoggedIn => "Not logged in. Run 'insighta login' first."@,
        CliError::TokenExpired => "Session expired. Run 'insighta login' to re-authenticate."@,
        CliError::Api(m) => "API error: "@ + m@,
        CliError::Io(m) => "IO error: "@ + m@,
        CliError::Http(m) => "HTTP error: "@ + m@,
    }
}

impl CliError {
    /// The text shown to the user for this error.
    pub fn message(&self) -> (r: String)
        ensures
            r@ == error_message(*self),
    {
        match self {
            CliError::NotLoggedIn => String::from_str("Not logged in. Run 'insighta login' first."),
            CliError::TokenExpired => String::from_str(
                "Session expired. Run 'insighta login' to re-authenticate.",
            ),
            CliError::Api(m) => String::from_str("API error: ").concat(m.as_str()),
            CliError::Io(m) => String::from_str("IO error: ").concat(m.as_str()),
            CliError::Http(m) => String::from_str("HTTP error: ").concat(m.as_str()),
        }
    }
}

/// The text of each error, as the user sees it: the two session errors
/// tell the user to run `insighta login`; the others name their kind and
/// carry the text they hold, after it.
pub proof fn lemma_error_texts(m: String)
    ensures
        error_message(CliError::NotLoggedIn) == "Not logged in. Run 'insighta login' first."@,
        error_message(CliError::TokenExpired)
            == "Session expired. Run 'insighta login' to re-authenticate."@,
        error_message(CliError::Api(m)) == "API error: "@ + m@,
        error_message(CliError::Io(m)) == "IO error: "@ + m@,
        error_message(CliError::Http(m)) == "HTTP error: "@ + m@,
{
}

} // verus!
