//! Verified core of the `insighta` command-line client: the PKCE login
//! helpers, the parsing of the OAuth callback, the interpretation of API
//! replies, and the rendering of profile listings.

pub mod auth;
pub mod cli;
pub mod client;
pub mod config;
pub mod credentials;
pub mod encoding;
pub mod error;
pub mod json;
pub mod profiles;
pub mod text;
