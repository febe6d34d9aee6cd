//! The commands of the client, as plain values. The argument parser that
//! reads them from the command line builds these.

use vstd::prelude::*;

verus! {

/// The whole command line: one command.
#[derive(Debug, Clone, PartialEq, Eq)]
pub struct Cli {
    pub command: Commands,
}

/// The top-level commands.
#[derive(Debug, Clone, PartialEq, Eq)]
pub enum Commands {
    /// Log in through GitHub with PKCE.
    Login,
    /// End the session on the server and forget the local credentials.
    Logout,
    /// Show the user and role of the current session.
    Whoami,
    /// Work with demographic profiles.
    Profiles { command: ProfileCommands },
}

/// The `profiles` subcommands.
#[derive(Debug, Clone, PartialEq, Eq)]
pub enum ProfileCommands {
    /// One page of profiles, filtered and sorted.
    List {
        gender: Option<String>,
        country: Option<String>,
        age_group: Option<String>,
        min_age: Option<u8>,
        max_age: Option<u8>,
        sort_by: Option<String>,
        order: Option<String>,
        page: u32,
        limit: u32,
    },
    /// One profile, by its id.
    Get { id: String },
    /// Profiles that match a plain-English query.
    Search { query: String, page: u32, limit: u32 },
    /// A new profile for a name (admin only).
    Create { name: String },
    /// Every matching profile, saved to a file.
    Export {
        format: String,
        gender: Option<String>,
        country: Option<String>,
        age_group: Option<String>,
        min_age: Option<u8>,
        max_age: Option<u8>,
        sort_by: Option<String>,
        order: Option<String>,
    },
}

} // verus!
