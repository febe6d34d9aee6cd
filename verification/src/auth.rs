//! The decisions of the login, logout and `whoami` commands: the PKCE
//! parameters, the authorization URL, the reading of the OAuth callback,
//! the token-exchange reply, and the messages shown to the user.

use vstd::prelude::*;
use vstd::utf8::encode_utf8;
use crate::credentials::Credentials;
use crate::encoding::{
    b64url, base64url_decode, base64url_encode, hex_encode, hex_lower, is_lower_hex_char,
    lemma_b64url_injective, lemma_b64url_len, lemma_hex_lower_shape, percent_encode,
    random_bytes, sha256, sha256_digest, url_decode, url_decode_spec, url_encode,
};
use crate::error::CliError;
use crate::json::{field, str_field, str_field_or, JsonValue};
use crate::text::{
    char_views, chars_equal_str, chars_from, chars_of, chars_until, concat, decimal, find_char,
    first_index, is_whitespace, lemma_first_index_after, lemma_split_fold_after_sep,
    lemma_split_fold_without_sep, lemma_words_fold_after_whitespace,
    lemma_words_fold_without_whitespace, split_char, split_chars, split_words, str_equal,
    string_from_chars, u64_to_decimal, words,
};

verus! {

/// The number of random bytes behind a PKCE code verifier.
pub const VERIFIER_BYTES: usize = 32;

/// The number of random bytes behind an OAuth `state` value.
pub const STATE_BYTES: usize = 16;

/// Whether `s` is the lower-case hex text of `n` bytes.
pub open spec fn is_hex_of_len(s: Seq<char>, n: nat) -> bool {
    exists|b: Seq<u8>| b.len() == n && s == #[trigger] hex_lower(b)
}

/// A fresh PKCE code verifier: 32 random bytes, hex-encoded (64 characters).
pub fn generate_code_verifier() -> (r: String)
    ensures
        is_hex_of_len(r@, VERIFIER_BYTES as nat),
        r@.len() == 64,
        forall|i: int| 0 <= i < r@.len() ==> is_lower_hex_char(#[trigger] r@[i]),
{
    let bytes = random_bytes(VERIFIER_BYTES);
    let r = hex_encode(bytes.as_slice());
    proof {
        lemma_hex_lower_shape(bytes@);
    }
    r
}

/// A fresh OAuth `state` value (CSRF token): 16 random bytes, hex-encoded
/// (32 characters).
pub fn generate_state() -> (r: String)
    ensures
        is_hex_of_len(r@, STATE_BYTES as nat),
        r@.len() == 32,
        forall|i: int| 0 <= i < r@.len() ==> is_lower_hex_char(#[trigger] r@[i]),
{
    let bytes = random_bytes(STATE_BYTES);
    let r = hex_encode(bytes.as_slice());
    proof {
        lemma_hex_lower_shape(bytes@);
    }
    r
}

/// The PKCE code challenge of a verifier: the URL-safe base64 (no padding)
/// of the SHA-256 digest of its UTF-8 bytes.
pub open spec fn code_challenge(verifier: Seq<char>) -> Seq<char> {
    b64url(sha256(encode_utf8(verifier)))
}

/// Derives the PKCE code challenge of `verifier`; it is 43 characters long.
pub fn derive_code_challenge(verifier: &str) -> (r: String)
    ensures
        r@ == code_challenge(verifier@),
        r@.len() == 43,
{
    let digest = sha256_digest(verifier.as_bytes());
    let r = base64url_encode(digest.as_slice());
    proof {
        lemma_b64url_len(digest@);
    }
    r
}

/// The local address of the callback: `http://127.0.0.1:<port>/callback`.
pub open spec fn redirect_uri_spec(port: u16) -> Seq<char> {
    "http://127.0.0.1:"@ + decimal(port as nat) + "/callback"@
}

/// The local redirect URI that GitHub sends the browser back to.
pub fn redirect_uri(port: u16) -> (r: String)
    ensures
        r@ == redirect_uri_spec(port),
        r@ == "http://127.0.0.1:"@ + decimal(port as nat) + "/callback"@,
{
    let p = u64_to_decimal(port as u64);
    let a = concat("http://127.0.0.1:", p.as_str());
    concat(a.as_str(), "/callback")
}

/// The address that the callback listener binds: `127.0.0.1:<port>`.
pub fn callback_bind_address(port: u16) -> (r: String)
    ensures
        r@ == "127.0.0.1:"@ + decimal(port as nat),
{
    let p = u64_to_decimal(port as u64);
    concat("127.0.0.1:", p.as_str())
}

/// The URL that starts the GitHub authorization at the backend.
pub open spec fn authorization_url_spec(
    backend: Seq<char>,
    state: Seq<char>,
    challenge: Seq<char>,
    port: u16,
) -> Seq<char> {
    backend + "/auth/github?state="@ + state + "&code_challenge="@ + challenge
        + "&redirect_uri="@ + percent_encode(encode_utf8(redirect_uri_spec(port)))
}

/// The URL that the browser is sent to:
/// `<backend>/auth/github?state=..&code_challenge=..&redirect_uri=..`, the
/// redirect URI percent-encoded.
pub fn authorization_url(backend: &str, state: &str, challenge: &str, port: u16) -> (r: String)
    ensures
        r@ == authorization_url_spec(backend@, state@, challenge@, port),
        r@.take(authorization_prefix(backend@, state@, challenge@).len() as int)
            == authorization_prefix(backend@, state@, challenge@),
        url_decode_spec(r@.skip(authorization_prefix(backend@, state@, challenge@).len() as int))
            == Some("http://127.0.0.1:"@ + decimal(port as nat) + "/callback"@),
{
    proof {
        lemma_authorization_url_redirects_to_listener(backend@, state@, challenge@, port);
    }
    let redirect = redirect_uri(port);
    let encoded = url_encode(redirect.as_str());
    let mut r = String::from_str(backend);
    r.append("/auth/github?state=");
    r.append(state);
    r.append("&code_challenge=");
    r.append(challenge);
    r.append("&redirect_uri=");
    r.append(encoded.as_str());
    r
}

/// The name of a `name=value` pair: what precedes the first `=`, or the
/// whole piece when there is none.
pub open spec fn pair_key(piece: Seq<char>) -> Seq<char> {
    match first_index(piece, '=') {
        Some(i) => piece.take(i),
        None => piece,
    }
}

/// The value of a `name=value` pair: what follows the first `=`; a piece
/// without `=` has none.
pub open spec fn pair_value(piece: Seq<char>) -> Option<Seq<char>> {
    match first_index(piece, '=') {
        Some(i) => Some(piece.skip(i + 1)),
        None => None,
    }
}

/// The value of the last pair named `key` that has a value.
pub open spec fn last_param(pieces: Seq<Seq<char>>, key: Seq<char>) -> Option<Seq<char>>
    decreases pieces.len(),
{
    if pieces.len() == 0 {
        None
    } else if pair_key(pieces.last()) == key && pair_value(pieces.last()) is Some {
        pair_value(pieces.last())
    } else {
        last_param(pieces.drop_last(), key)
    }
}

/// The query of the request target in an HTTP request line: the second
/// whitespace-separated word, from after its first `?`; empty when there is
/// no such word or no `?`.
pub open spec fn callback_query(line: Seq<char>) -> Seq<char> {
    let w = words(line);
    let target = if w.len() > 1 {
        w[1]
    } else {
        Seq::empty()
    };
    match first_index(target, '?') {
        Some(i) => target.skip(i + 1),
        None => Seq::empty(),
    }
}

/// The percent-decoding of `v`, or nothing when it is not UTF-8.
pub open spec fn decoded_or_empty(v: Seq<char>) -> Seq<char> {
    match url_decode_spec(v) {
        Some(d) => d,
        None => Seq::empty(),
    }
}

/// What the callback request says: the `code` and `state` it carries, or
/// the message of the error it stands for. A GitHub `error` wins, told by
/// its `error_description` when there is one; without it, `code` and
/// `state` must both be there. Where a name comes more than once, the last
/// pair counts. Only `error` and `error_description` are percent-decoded.
pub open spec fn callback_outcome(line: Seq<char>) -> Result<(Seq<char>, Seq<char>), Seq<char>> {
    let pieces = split_char(callback_query(line), '&');
    let error = last_param(pieces, "error"@);
    let description = last_param(pieces, "error_description"@);
    if error is Some {
        let told = match description {
            Some(d) => d,
            None => error->0,
        };
        Err("GitHub authorization failed: "@ + decoded_or_empty(told))
    } else {
        match (last_param(pieces, "code"@), last_param(pieces, "state"@)) {
            (Some(c), Some(s)) => Ok((c, s)),
            _ => Err("Callback did not contain expected parameters"@),
        }
    }
}

/// The characters of an optional character vector.
pub open spec fn opt_chars(o: Option<Vec<char>>) -> Option<Seq<char>> {
    match o {
        Some(v) => Some(v@),
        None => None,
    }
}

fn decoded_text(v: &[char]) -> (r: String)
    ensures
        r@ == decoded_or_empty(v@),
{
    let s = string_from_chars(v);
    match url_decode(s.as_str()) {
        Some(d) => d,
        None => String::new(),
    }
}

/// Reads the OAuth callback from the first line of the HTTP request that
/// the browser sends to the local listener: the authorization `code` and
/// the returned `state`, or the error that the callback reports.
pub fn parse_callback_request(request_line: &str) -> (r: Result<(String, String), CliError>)
    ensures
        match r {
            Ok((code, state)) => callback_outcome(request_line@) == Ok::<
                (Seq<char>, Seq<char>),
                Seq<char>,
            >((code@, state@)),
            Err(e) => e is Api && callback_outcome(request_line@) == Err::<
                (Seq<char>, Seq<char>),
                Seq<char>,
            >(e->Api_0@),
        },
{
    let line = chars_of(request_line);
    let w = split_words(line.as_slice());
    let target: Vec<char> = if w.len() > 1 {
        chars_from(w[1].as_slice(), 0)
    } else {
        Vec::new()
    };
    let target_len = target.len();
    let query: Vec<char> = match find_char(target.as_slice(), '?') {
        Some(i) => {
            assert(i < target_len);
            chars_from(target.as_slice(), i + 1)
        },
        None => Vec::new(),
    };
    assert(query@ == callback_query(request_line@)) by {
        if w.len() > 1 {
            assert(target@ == char_views(w@)[1]);
        }
        assert(target@.skip(0) =~= target@);
    }
    let pieces = split_chars(query.as_slice(), '&');
    let ghost views = char_views(pieces@);
    let mut code: Option<Vec<char>> = None;
    let mut state: Option<Vec<char>> = None;
    let mut error: Option<Vec<char>> = None;
    let mut description: Option<Vec<char>> = None;
    let n = pieces.len();
    for k in 0..n
        invariant
            n == pieces@.len(),
            views == char_views(pieces@),
            opt_chars(code) == last_param(views.take(k as int), "code"@),
            opt_chars(state) == last_param(views.take(k as int), "state"@),
            opt_chars(error) == last_param(views.take(k as int), "error"@),
            opt_chars(description) == last_param(views.take(k as int), "error_description"@),
    {
        let piece = &pieces[k];
        assert(views.take(k + 1).drop_last() =~= views.take(k as int));
        assert(views.take(k + 1).last() == piece@);
        match find_char(piece.as_slice(), '=') {
            Some(i) => {
                let plen = piece.len();
                assert(i < plen);
                let start = i + 1;
                let key = chars_until(piece.as_slice(), i);
                if chars_equal_str(key.as_slice(), "code") {
                    code = Some(chars_from(piece.as_slice(), start));
                }
                if chars_equal_str(key.as_slice(), "state") {
                    state = Some(chars_from(piece.as_slice(), start));
                }
                if chars_equal_str(key.as_slice(), "error") {
                    error = Some(chars_from(piece.as_slice(), start));
                }
                if chars_equal_str(key.as_slice(), "error_description") {
                    description = Some(chars_from(piece.as_slice(), start));
                }
            },
            None => {},
        }
    }
    assert(views.take(n as int) =~= views);
    match error {
        Some(e) => {
            let told = match description {
                Some(d) => d,
                None => e,
            };
            let text = decoded_text(told.as_slice());
            Err(CliError::Api(concat("GitHub authorization failed: ", text.as_str())))
        },
        None => {
            match (code, state) {
                (Some(c), Some(s)) => Ok((string_from_chars(c.as_slice()), string_from_chars(s.as_slice()))),
                _ => Err(CliError::Api(String::from_str("Callback did not contain expected parameters"))),
            }
        },
    }
}

/// Checks that the `state` that came back with the callback is the one
/// that was sent; a different one is refused as a possible CSRF.
pub fn check_state(returned: &str, expected: &str) -> (r: Result<(), CliError>)
    ensures
        match r {
            Ok(()) => returned@ == expected@,
            Err(e) => returned@ != expected@ && e == CliError::Api(e->Api_0) && e->Api_0@
                == "State mismatch — possible CSRF"@,
        },
{
    if str_equal(returned, expected) {
        Ok(())
    } else {
        Err(CliError::Api(String::from_str("State mismatch — possible CSRF")))
    }
}

/// What the backend's reply to the token exchange says: the access and
/// refresh tokens, or the message of the failure. An unreadable reply
/// (`None`) fails; a `status` other than `"success"` (a missing one counts
/// as `"error"`) fails with the reply's `message`, or `"Login failed"`;
/// then each token must be there as a string.
pub open spec fn login_reply_outcome(reply: Option<JsonValue>) -> Result<
    (Seq<char>, Seq<char>),
    Seq<char>,
> {
    match reply {
        None => Err("Failed to parse login response"@),
        Some(v) => if str_field_or(v, "status"@, "error"@) != "success"@ {
            Err(str_field_or(v, "message"@, "Login failed"@))
        } else {
            match str_field(v, "access_token"@) {
                None => Err("Missing access_token in response"@),
                Some(access) => match str_field(v, "refresh_token"@) {
                    None => Err("Missing refresh_token in response"@),
                    Some(refresh) => Ok((access, refresh)),
                },
            }
        },
    }
}

/// Reads the access and refresh tokens from the reply to the token
/// exchange; `reply` is `None` when the reply was not JSON.
pub fn login_tokens(reply: &Option<JsonValue>) -> (r: Result<(String, String), CliError>)
    ensures
        match r {
            Ok((access, refresh)) => login_reply_outcome(*reply) == Ok::<
                (Seq<char>, Seq<char>),
                Seq<char>,
            >((access@, refresh@)),
            Err(e) => e is Api && login_reply_outcome(*reply) == Err::<
                (Seq<char>, Seq<char>),
                Seq<char>,
            >(e->Api_0@),
        },
{
    match reply {
        None => Err(CliError::Api(String::from_str("Failed to parse login response"))),
        Some(v) => {
            let status = v.str_field_or("status", "error");
            if !str_equal(status.as_str(), "success") {
                return Err(CliError::Api(v.str_field_or("message", "Login failed")));
            }
            let access = match v.str_field("access_token") {
                Some(a) => a.clone(),
                None => {
                    return Err(
                        CliError::Api(String::from_str("Missing access_token in response")),
                    );
                },
            };
            let refresh = match v.str_field("refresh_token") {
                Some(t) => t.clone(),
                None => {
                    return Err(
                        CliError::Api(String::from_str("Missing refresh_token in response")),
                    );
                },
            };
            Ok((access, refresh))
        },
    }
}

/// The payload segment of a JWT: the second of its `.`-separated parts.
pub open spec fn payload_segment(token: Seq<char>) -> Option<Seq<char>> {
    let parts = split_char(token, '.');
    if parts.len() > 1 {
        Some(parts[1])
    } else {
        None
    }
}

/// The bytes of a JWT's payload: its payload segment, read as URL-safe
/// base64 without padding.
pub open spec fn token_payload_spec(token: Seq<char>) -> Option<Seq<u8>> {
    match payload_segment(token) {
        Some(seg) => if exists|v: Seq<u8>| #[trigger] b64url(v) == seg {
            Some(choose|v: Seq<u8>| #[trigger] b64url(v) == seg)
        } else {
            None
        },
        None => None,
    }
}

/// Decodes the payload of a JWT, without checking its signature.
pub fn token_payload(token: &str) -> (r: Option<Vec<u8>>)
    ensures
        match r {
            Some(v) => token_payload_spec(token@) == Some(v@),
            None => token_payload_spec(token@) is None,
        },
{
    let cs = chars_of(token);
    let parts = split_chars(cs.as_slice(), '.');
    if parts.len() > 1 {
        let seg = string_from_chars(parts[1].as_slice());
        assert(seg@ == char_views(parts@)[1]);
        let r = base64url_decode(seg.as_str());
        match r {
            Some(v) => {
                proof {
                    let w = choose|w: Seq<u8>| #[trigger] b64url(w) == seg@;
                    lemma_b64url_injective(w, v@);
                }
                Some(v)
            },
            None => None,
        }
    } else {
        None
    }
}

/// The `username` claim of a token's claims, when it is a string.
pub fn username_from_claims(claims: &JsonValue) -> (r: Option<String>)
    ensures
        match r {
            Some(u) => str_field(*claims, "username"@) == Some(u@),
            None => str_field(*claims, "username"@) is None,
        },
{
    match claims.str_field("username") {
        Some(u) => Some(u.clone()),
        None => None,
    }
}

/// The credentials that a login stores: the two tokens and the user name
/// read from the access token's claims (`None` when the token's payload
/// could not be read as JSON). Without a user name the login fails.
pub fn login_credentials(
    access_token: String,
    refresh_token: String,
    claims: Option<&JsonValue>,
) -> (r: Result<Credentials, CliError>)
    ensures
        match r {
            Ok(c) => c.access_token == access_token && c.refresh_token == refresh_token
                && claims is Some && str_field(*claims->0, "username"@) == Some(c.username@),
            Err(e) => e == CliError::Api(e->Api_0) && e->Api_0@
                == "Could not read username from token"@ && (claims is None || str_field(
                *claims->0,
                "username"@,
            ) is None),
        },
{
    let username = match claims {
        Some(c) => username_from_claims(c),
        None => None,
    };
    match username {
        Some(u) => Ok(Credentials::new(access_token, refresh_token, u)),
        None => Err(CliError::Api(String::from_str("Could not read username from token"))),
    }
}

/// The message shown after a successful login: `Logged in as @<name>`.
pub fn login_success_message(username: &str) -> (r: String)
    ensures
        r@ == "Logged in as @"@ + username@,
{
    concat("Logged in as @", username)
}

/// The message shown after a logout, by what the server said: `None` when
/// it could not be reached, else the HTTP status of its answer. Statuses
/// below 400, and 401 and 404 (the session was already gone), count as
/// success.
pub open spec fn logout_message_spec(server: Option<u16>) -> Seq<char> {
    match server {
        None => "Logged out. (Warning: could not reach server to invalidate session)"@,
        Some(status) => if status < 400 || status == 401 || status == 404 {
            "Logged out."@
        } else {
            "Logged out. (Warning: server responded with "@ + decimal(status as nat) + ")"@
        },
    }
}

/// The message shown after a logout.
pub fn logout_message(server: Option<u16>) -> (r: String)
    ensures
        r@ == logout_message_spec(server),
{
    match server {
        None => String::from_str("Logged out. (Warning: could not reach server to invalidate session)"),
        Some(status) => {
            if status < 400 || status == 401 || status == 404 {
                String::from_str("Logged out.")
            } else {
                let code = u64_to_decimal(status as u64);
                let a = concat("Logged out. (Warning: server responded with ", code.as_str());
                concat(a.as_str(), ")")
            }
        },
    }
}

/// The user name and role in the reply of `/auth/me`, under `data`;
/// `unknown` and `analyst` stand in for missing ones.
pub open spec fn whoami_message_spec(me: JsonValue) -> Seq<char> {
    let (username, role) = match field(me, "data"@) {
        Some(d) => (str_field_or(d, "username"@, "unknown"@), str_field_or(d, "role"@, "analyst"@)),
        None => ("unknown"@, "analyst"@),
    };
    "Logged in as @"@ + username + " ("@ + role + ")"@
}

/// The message of `whoami`: `Logged in as @<name> (<role>)`.
pub fn whoami_message(me: &JsonValue) -> (r: String)
    ensures
        r@ == whoami_message_spec(*me),
{
    let (username, role) = match me.get("data") {
        Some(d) => (d.str_field_or("username", "unknown"), d.str_field_or("role", "analyst")),
        None => (String::from_str("unknown"), String::from_str("analyst")),
    };
    let mut r = String::from_str("Logged in as @");
    r.append(username.as_str());
    r.append(" (");
    r.append(role.as_str());
    r.append(")");
    r
}

proof fn lemma_b64url_has_no_dot(bytes: Seq<u8>)
    ensures
        !b64url(bytes).contains('.'),
    decreases bytes.len(),
{
    if bytes.len() >= 3 {
        lemma_b64url_has_no_dot(bytes.skip(3));
    }
    let e = b64url(bytes);
    if e.contains('.') {
        let j = choose|j: int| 0 <= j < e.len() && e[j] == '.';
        if bytes.len() >= 3 && j >= 4 {
            assert(b64url(bytes.skip(3))[j - 4] == '.');
        }
    }
}

/// The payload of a token made of a header without `.`, the URL-safe
/// base64 of some bytes, and any signature, joined by `.`, is those bytes.
pub proof fn lemma_token_payload_of_parts(header: Seq<char>, payload: Seq<u8>, signature: Seq<char>)
    requires
        !header.contains('.'),
    ensures
        token_payload_spec(header + seq!['.'] + b64url(payload) + seq!['.'] + signature) == Some(
            payload,
        ),
{
    let e = b64url(payload);
    let token = header + seq!['.'] + e + seq!['.'] + signature;
    lemma_b64url_has_no_dot(payload);
    lemma_split_fold_without_sep(header, '.');
    lemma_split_fold_without_sep(e, '.');
    lemma_split_fold_after_sep(header, e, '.');
    let x = header.push('.') + e;
    assert(x == header + seq!['.'] + e);
    lemma_split_fold_after_sep(x, signature, '.');
    assert(token =~= x.push('.') + signature);
    assert(split_char(x, '.') =~= seq![header, e]);
    assert(split_char(token, '.')[1] == e);
    assert(payload_segment(token) == Some(e));
    let w = choose|w: Seq<u8>| #[trigger] b64url(w) == e;
    assert(b64url(payload) == e);
    lemma_b64url_injective(w, payload);
}

/// Whether `s` holds no whitespace character.
pub open spec fn has_no_whitespace(s: Seq<char>) -> bool {
    forall|i: int| 0 <= i < s.len() ==> !is_whitespace(#[trigger] s[i])
}

/// A callback request whose target carries a `code` and then a `state`
/// grants exactly that code and state, when neither holds `&` or
/// whitespace.
pub proof fn lemma_callback_grants_code_and_state(code: Seq<char>, state: Seq<char>)
    requires
        !code.contains('&'),
        !state.contains('&'),
        has_no_whitespace(code),
        has_no_whitespace(state),
    ensures
        callback_outcome("GET /callback?code="@ + code + "&state="@ + state + " HTTP/1.1"@)
            == Ok::<(Seq<char>, Seq<char>), Seq<char>>((code, state)),
{
    reveal_strlit("GET /callback?code=");
    reveal_strlit("&state=");
    reveal_strlit(" HTTP/1.1");
    reveal_strlit("code");
    reveal_strlit("state");
    reveal_strlit("error");
    reveal_strlit("error_description");
    let line = "GET /callback?code="@ + code + "&state="@ + state + " HTTP/1.1"@;
    let code_piece = seq!['c', 'o', 'd', 'e'].push('=') + code;
    let state_piece = seq!['s', 't', 'a', 't', 'e'].push('=') + state;
    let query = code_piece.push('&') + state_piece;
    let target = seq!['/', 'c', 'a', 'l', 'l', 'b', 'a', 'c', 'k'].push('?') + query;
    let version = seq!['H', 'T', 'T', 'P', '/', '1', '.', '1'];
    let method = seq!['G', 'E', 'T'];
    assert(line =~= (method.push(' ') + target).push(' ') + version);
    // The request line has three words; the target is the second.
    assert(has_no_whitespace(target)) by {
        assert forall|i: int| 0 <= i < target.len() implies !is_whitespace(#[trigger] target[i]) by {
            if i >= 10 + 5 + code.len() + 1 + 6 {
                assert(target[i] == state[i - (10 + 5 + code.len() + 1 + 6)]);
            } else if 15 <= i < 15 + code.len() {
                assert(target[i] == code[i - 15]);
            }
        }
    }
    lemma_words_fold_without_whitespace(method);
    lemma_words_fold_without_whitespace(target);
    lemma_words_fold_without_whitespace(version);
    lemma_words_fold_after_whitespace(method, ' ', target);
    lemma_words_fold_after_whitespace(method.push(' ') + target, ' ', version);
    assert(words(method) =~= seq![method]);
    assert(words(method.push(' ') + target) =~= seq![method, target]);
    assert(words(line) =~= seq![method, target, version]);
    // The query follows the first `?`.
    assert(!seq!['/', 'c', 'a', 'l', 'l', 'b', 'a', 'c', 'k'].contains('?'));
    lemma_first_index_after(seq!['/', 'c', 'a', 'l', 'l', 'b', 'a', 'c', 'k'], '?', query);
    assert(target.skip(10) =~= query);
    assert(callback_query(line) == query);
    // The query has two pieces.
    assert(!code_piece.contains('&')) by {
        if code_piece.contains('&') {
            let j = choose|j: int| 0 <= j < code_piece.len() && code_piece[j] == '&';
            assert(code[j - 5] == '&');
        }
    }
    assert(!state_piece.contains('&')) by {
        if state_piece.contains('&') {
            let j = choose|j: int| 0 <= j < state_piece.len() && state_piece[j] == '&';
            assert(state[j - 6] == '&');
        }
    }
    lemma_split_fold_without_sep(code_piece, '&');
    lemma_split_fold_without_sep(state_piece, '&');
    lemma_split_fold_after_sep(code_piece, state_piece, '&');
    let pieces = split_char(query, '&');
    assert(pieces =~= seq![code_piece, state_piece]);
    // Each piece is a name, `=`, and a value.
    assert(!seq!['c', 'o', 'd', 'e'].contains('='));
    assert(!seq!['s', 't', 'a', 't', 'e'].contains('='));
    lemma_first_index_after(seq!['c', 'o', 'd', 'e'], '=', code);
    lemma_first_index_after(seq!['s', 't', 'a', 't', 'e'], '=', state);
    assert(code_piece.take(4) =~= "code"@);
    assert(code_piece.skip(5) =~= code);
    assert(state_piece.take(5) =~= "state"@);
    assert(state_piece.skip(6) =~= state);
    assert(pair_key(state_piece) == "state"@);
    assert(pair_key(code_piece) == "code"@);
    assert(pieces.last() == state_piece);
    assert(pieces.drop_last() =~= seq![code_piece]);
    assert(pieces.drop_last().drop_last() =~= Seq::<Seq<char>>::empty());
    assert("state"@ != "code"@);
    assert("state"@[0] != "error"@[0]);
    assert("state"@ != "error"@);
    assert("code"@ != "error"@);
    assert(pair_value(code_piece) == Some(code));
    assert(pair_value(state_piece) == Some(state));
    assert(last_param(pieces.drop_last(), "code"@) == Some(code));
    assert(last_param(pieces, "code"@) == Some(code));
    assert(last_param(pieces, "state"@) == Some(state));
    assert(last_param(pieces.drop_last().drop_last(), "error"@) is None);
    assert(last_param(pieces.drop_last(), "error"@) is None);
    assert(last_param(pieces, "error"@) is None);
}

/// The authorization URL up to the value of its `redirect_uri` parameter.
pub open spec fn authorization_prefix(backend: Seq<char>, state: Seq<char>, challenge: Seq<char>) -> Seq<
    char,
> {
    backend + "/auth/github?state="@ + state + "&code_challenge="@ + challenge + "&redirect_uri="@
}

/// The authorization URL sends GitHub back to the local listener: its last
/// parameter, `redirect_uri`, percent-decodes to `http://` followed by the
/// address that `callback_bind_address(port)` binds, and `/callback`.
pub proof fn lemma_authorization_url_redirects_to_listener(
    backend: Seq<char>,
    state: Seq<char>,
    challenge: Seq<char>,
    port: u16,
)
    ensures
        authorization_url_spec(backend, state, challenge, port).take(
            authorization_prefix(backend, state, challenge).len() as int,
        ) == authorization_prefix(backend, state, challenge),
        url_decode_spec(
            authorization_url_spec(backend, state, challenge, port).skip(
                authorization_prefix(backend, state, challenge).len() as int,
            ),
        ) == Some("http://127.0.0.1:"@ + decimal(port as nat) + "/callback"@),
{
    let prefix = authorization_prefix(backend, state, challenge);
    let uri = "http://127.0.0.1:"@ + decimal(port as nat) + "/callback"@;
    let url = authorization_url_spec(backend, state, challenge, port);
    let tail = percent_encode(encode_utf8(redirect_uri_spec(port)));
    assert(redirect_uri_spec(port) == uri);
    assert(url =~= prefix + tail);
    assert(url.take(prefix.len() as int) =~= prefix);
    assert(url.skip(prefix.len() as int) =~= tail);
    crate::encoding::lemma_url_decode_undoes_encode(uri);
}

/// How a logout is reported, by what the server answered: any status
/// below 400 is a success, and so are 401 and 404 (the session was already
/// gone); any other status is reported with its number; no answer at all
/// is reported as such.
pub proof fn lemma_logout_message_by_status(status: u16)
    ensures
        status < 400 ==> logout_message_spec(Some(status)) == "Logged out."@,
        status == 401 || status == 404 ==> logout_message_spec(Some(status)) == "Logged out."@,
        400 <= status && status != 401 && status != 404 ==> logout_message_spec(Some(status))
            == "Logged out. (Warning: server responded with "@ + decimal(status as nat) + ")"@,
        logout_message_spec(None)
            == "Logged out. (Warning: could not reach server to invalidate session)"@,
{
}

/// `whoami` shows the user name and role under `data`, each replaced by
/// `unknown` or `analyst` when it is not a string.
pub proof fn lemma_whoami_shows_user_and_role(me: JsonValue)
    ensures
        field(me, "data"@) matches Some(d) ==> whoami_message_spec(me) == "Logged in as @"@
            + (match str_field(d, "username"@) {
            Some(u) => u,
            None => "unknown"@,
        }) + " ("@ + (match str_field(d, "role"@) {
            Some(r) => r,
            None => "analyst"@,
        }) + ")"@,
        field(me, "data"@) is None ==> whoami_message_spec(me) == "Logged in as @unknown (analyst)"@,
{
    if field(me, "data"@) is None {
        reveal_strlit("Logged in as @unknown (analyst)");
        reveal_strlit("Logged in as @");
        reveal_strlit("unknown");
        reveal_strlit(" (");
        reveal_strlit("analyst");
        reveal_strlit(")");
        assert(whoami_message_spec(me) =~= "Logged in as @unknown (analyst)"@);
    }
}

/// A login reply yields tokens exactly when its `status` is the string
/// `success` and both tokens are strings, and then they are those strings.
/// A reply whose status is another string, or no string, fails with its
/// `message` or `Login failed`.
pub proof fn lemma_login_reply_tokens(v: JsonValue)
    ensures
        login_reply_outcome(Some(v)) is Ok <==> (str_field(v, "status"@) == Some("success"@)
            && str_field(v, "access_token"@) is Some && str_field(v, "refresh_token"@) is Some),
        login_reply_outcome(Some(v)) matches Ok((a, r)) ==> str_field(v, "access_token"@) == Some(
            a,
        ) && str_field(v, "refresh_token"@) == Some(r),
        str_field(v, "status"@) != Some("success"@) ==> login_reply_outcome(Some(v)) == Err::<
            (Seq<char>, Seq<char>),
            Seq<char>,
        >(
            match str_field(v, "message"@) {
                Some(m) => m,
                None => "Login failed"@,
            },
        ),
        login_reply_outcome(None) == Err::<(Seq<char>, Seq<char>), Seq<char>>(
            "Failed to parse login response"@,
        ),
{
    reveal_strlit("success");
    reveal_strlit("error");
    assert("error"@.len() != "success"@.len());
    assert("error"@ != "success"@);
    assert(str_field_or(v, "status"@, "error"@) == "success"@ <==> str_field(v, "status"@) == Some(
        "success"@,
    ));
}

proof fn lemma_request_query(q: Seq<char>)
    requires
        has_no_whitespace(q),
    ensures
        callback_query("GET /callback?"@ + q + " HTTP/1.1"@) == q,
{
    reveal_strlit("GET /callback?");
    reveal_strlit(" HTTP/1.1");
    let method = seq!['G', 'E', 'T'];
    let path = seq!['/', 'c', 'a', 'l', 'l', 'b', 'a', 'c', 'k'];
    let target = path.push('?') + q;
    let version = seq!['H', 'T', 'T', 'P', '/', '1', '.', '1'];
    let line = "GET /callback?"@ + q + " HTTP/1.1"@;
    assert(line =~= (method.push(' ') + target).push(' ') + version);
    assert(has_no_whitespace(target)) by {
        assert forall|i: int| 0 <= i < target.len() implies !is_whitespace(#[trigger] target[i]) by {
            if i >= 10 {
                assert(target[i] == q[i - 10]);
            }
        }
    }
    lemma_words_fold_without_whitespace(method);
    lemma_words_fold_without_whitespace(target);
    lemma_words_fold_without_whitespace(version);
    lemma_words_fold_after_whitespace(method, ' ', target);
    lemma_words_fold_after_whitespace(method.push(' ') + target, ' ', version);
    assert(words(method) =~= seq![method]);
    assert(words(method.push(' ') + target) =~= seq![method, target]);
    assert(words(line) =~= seq![method, target, version]);
    assert(!path.contains('?'));
    lemma_first_index_after(path, '?', q);
    assert(target.skip(10) =~= q);
}

proof fn lemma_no_char_in_concat(a: Seq<char>, b: Seq<char>, c: char)
    requires
        !a.contains(c),
        !b.contains(c),
    ensures
        !(a + b).contains(c),
{
    if (a + b).contains(c) {
        let j = choose|j: int| 0 <= j < (a + b).len() && (a + b)[j] == c;
        if j < a.len() {
            assert(a[j] == c);
        } else {
            assert(b[j - a.len()] == c);
        }
    }
}

proof fn lemma_two_pieces(p1: Seq<char>, p2: Seq<char>)
    requires
        !p1.contains('&'),
        !p2.contains('&'),
    ensures
        split_char(p1.push('&') + p2, '&') == seq![p1, p2],
{
    lemma_split_fold_without_sep(p1, '&');
    lemma_split_fold_without_sep(p2, '&');
    lemma_split_fold_after_sep(p1, p2, '&');
    assert(split_char(p1, '&') =~= seq![p1]);
    assert(split_char(p1.push('&') + p2, '&') =~= seq![p1, p2]);
}

proof fn lemma_one_piece(p1: Seq<char>)
    requires
        !p1.contains('&'),
    ensures
        split_char(p1, '&') == seq![p1],
{
    lemma_split_fold_without_sep(p1, '&');
    assert(split_char(p1, '&') =~= seq![p1]);
}

proof fn lemma_named_pair(name: Seq<char>, v: Seq<char>)
    requires
        !name.contains('='),
    ensures
        pair_key(name.push('=') + v) == name,
        pair_value(name.push('=') + v) == Some(v),
{
    lemma_first_index_after(name, '=', v);
    assert((name.push('=') + v).take(name.len() as int) =~= name);
    assert((name.push('=') + v).skip(name.len() as int + 1) =~= v);
}

/// A callback that reports a GitHub error with a description fails with
/// the percent-decoded description (empty when it does not decode to
/// UTF-8), and gives no code.
pub proof fn lemma_callback_reports_error_description(error: Seq<char>, description: Seq<char>)
    requires
        !error.contains('&'),
        !description.contains('&'),
        has_no_whitespace(error),
        has_no_whitespace(description),
    ensures
        callback_outcome(
            "GET /callback?"@ + ("error="@ + error + "&error_description="@ + description)
                + " HTTP/1.1"@,
        ) == Err::<(Seq<char>, Seq<char>), Seq<char>>(
            "GitHub authorization failed: "@ + match url_decode_spec(description) {
                Some(d) => d,
                None => Seq::empty(),
            },
        ),
{
    reveal_strlit("error=");
    reveal_strlit("&error_description=");
    reveal_strlit("error");
    reveal_strlit("error_description");
    reveal_strlit("code");
    reveal_strlit("state");
    let n1 = seq!['e', 'r', 'r', 'o', 'r'];
    let n2 = seq!['e', 'r', 'r', 'o', 'r', '_', 'd', 'e', 's', 'c', 'r', 'i', 'p', 't', 'i', 'o', 'n'];
    let p1 = n1.push('=') + error;
    let p2 = n2.push('=') + description;
    let q = p1.push('&') + p2;
    assert(q =~= "error="@ + error + "&error_description="@ + description);
    assert(has_no_whitespace(q)) by {
        assert forall|i: int| 0 <= i < q.len() implies !is_whitespace(#[trigger] q[i]) by {
            if 6 <= i < 6 + error.len() {
                assert(q[i] == error[i - 6]);
            } else if i >= 6 + error.len() + 19 {
                assert(q[i] == description[i - (6 + error.len() + 19)]);
            }
        }
    }
    lemma_request_query(q);
    assert(!n1.push('=').contains('&'));
    assert(!n2.push('=').contains('&'));
    lemma_no_char_in_concat(n1.push('='), error, '&');
    lemma_no_char_in_concat(n2.push('='), description, '&');
    lemma_two_pieces(p1, p2);
    assert(!n1.contains('='));
    assert(!n2.contains('='));
    lemma_named_pair(n1, error);
    lemma_named_pair(n2, description);
    let pieces = seq![p1, p2];
    assert(n1 == "error"@ && n2 == "error_description"@);
    assert(pieces.last() == p2 && pieces.drop_last() =~= seq![p1]);
    assert(seq![p1].last() == p1 && seq![p1].drop_last() =~= Seq::<Seq<char>>::empty());
    assert(n1 != n2);
    assert(last_param(seq![p1], "error"@) == Some(error));
    assert(last_param(pieces, "error"@) == Some(error));
    assert(last_param(pieces, "error_description"@) == Some(description));
}

/// A callback that reports a GitHub error without a description fails
/// with the percent-decoded error.
pub proof fn lemma_callback_reports_error(error: Seq<char>)
    requires
        !error.contains('&'),
        has_no_whitespace(error),
    ensures
        callback_outcome("GET /callback?"@ + ("error="@ + error) + " HTTP/1.1"@) == Err::<
            (Seq<char>, Seq<char>),
            Seq<char>,
        >(
            "GitHub authorization failed: "@ + match url_decode_spec(error) {
                Some(d) => d,
                None => Seq::empty(),
            },
        ),
{
    reveal_strlit("error=");
    reveal_strlit("error");
    reveal_strlit("error_description");
    let n1 = seq!['e', 'r', 'r', 'o', 'r'];
    let p1 = n1.push('=') + error;
    assert(p1 =~= "error="@ + error);
    assert(has_no_whitespace(p1)) by {
        assert forall|i: int| 0 <= i < p1.len() implies !is_whitespace(#[trigger] p1[i]) by {
            if i >= 6 {
                assert(p1[i] == error[i - 6]);
            }
        }
    }
    lemma_request_query(p1);
    assert(!n1.push('=').contains('&'));
    lemma_no_char_in_concat(n1.push('='), error, '&');
    lemma_one_piece(p1);
    assert(!n1.contains('='));
    lemma_named_pair(n1, error);
    let pieces = seq![p1];
    assert(n1 == "error"@);
    assert(pieces.last() == p1 && pieces.drop_last() =~= Seq::<Seq<char>>::empty());
    assert("error"@.len() != "error_description"@.len());
    assert(last_param(pieces, "error"@) == Some(error));
    assert(pair_key(p1) != "error_description"@);
    assert(last_param(pieces.drop_last(), "error_description"@) is None);
    assert(last_param(pieces, "error_description"@) is None);
}

/// The order of `state` and `code` in the callback does not matter.
pub proof fn lemma_callback_grants_state_then_code(state: Seq<char>, code: Seq<char>)
    requires
        !code.contains('&'),
        !state.contains('&'),
        has_no_whitespace(code),
        has_no_whitespace(state),
    ensures
        callback_outcome("GET /callback?"@ + ("state="@ + state + "&code="@ + code) + " HTTP/1.1"@)
            == Ok::<(Seq<char>, Seq<char>), Seq<char>>((code, state)),
{
    reveal_strlit("state=");
    reveal_strlit("&code=");
    reveal_strlit("error");
    reveal_strlit("error_description");
    reveal_strlit("code");
    reveal_strlit("state");
    let n1 = seq!['s', 't', 'a', 't', 'e'];
    let n2 = seq!['c', 'o', 'd', 'e'];
    let p1 = n1.push('=') + state;
    let p2 = n2.push('=') + code;
    let q = p1.push('&') + p2;
    assert(q =~= "state="@ + state + "&code="@ + code);
    assert(has_no_whitespace(q)) by {
        assert forall|i: int| 0 <= i < q.len() implies !is_whitespace(#[trigger] q[i]) by {
            if 6 <= i < 6 + state.len() {
                assert(q[i] == state[i - 6]);
            } else if i >= 6 + state.len() + 6 {
                assert(q[i] == code[i - (6 + state.len() + 6)]);
            }
        }
    }
    lemma_request_query(q);
    assert(!n1.push('=').contains('&'));
    assert(!n2.push('=').contains('&'));
    lemma_no_char_in_concat(n1.push('='), state, '&');
    lemma_no_char_in_concat(n2.push('='), code, '&');
    lemma_two_pieces(p1, p2);
    assert(!n1.contains('='));
    assert(!n2.contains('='));
    lemma_named_pair(n1, state);
    lemma_named_pair(n2, code);
    let pieces = seq![p1, p2];
    assert(n1 == "state"@ && n2 == "code"@);
    assert(pieces.last() == p2 && pieces.drop_last() =~= seq![p1]);
    assert(seq![p1].last() == p1 && seq![p1].drop_last() =~= Seq::<Seq<char>>::empty());
    assert("state"@[0] != "error"@[0]);
    assert(n1 != n2);
    assert(last_param(seq![p1], "state"@) == Some(state));
    assert(last_param(pieces, "state"@) == Some(state));
    assert(last_param(pieces, "code"@) == Some(code));
    assert("state"@ != "error"@);
    assert(pair_key(p1) != "error"@);
    assert(last_param(seq![p1].drop_last(), "error"@) is None);
    assert(last_param(seq![p1], "error"@) is None);
    assert(last_param(pieces, "error"@) is None);
}

} // verus!
