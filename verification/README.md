# insighta

The verified core of `insighta`, the command-line client of Insighta Labs+.

- `src/` — the library, verified with Verus:
  - `auth.rs`: PKCE verifier, state and challenge; the authorization URL;
    reading the OAuth callback request; the token-exchange reply; the JWT
    payload; the login, logout and `whoami` messages.
  - `client.rs`: request URL and headers, session renewal decisions, and
    reading API replies.
  - `profiles.rs`: query parameters of `list`, `search` and `export`, table
    cells and tables, page summaries, and export file names.
  - `json.rs`: JSON values as plain data, and member lookup.
  - `encoding.rs`: hex, URL-safe base64, percent-encoding and SHA-256, with
    their specifications and the calls into `hex`, `base64`, `urlencoding`,
    `sha2` and `rand`.
  - `text.rs`: splitting, searching and decimal conversion on characters.
  - `config.rs`, `credentials.rs`, `error.rs`, `cli.rs`: settings,
    session credentials, errors and commands.
- `app/` — the program: argument parsing, files, HTTP, the local callback
  listener and terminal output.
- `tests/` — tests of the library on concrete values.
