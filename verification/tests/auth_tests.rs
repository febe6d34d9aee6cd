use insighta::auth::{
    authorization_url, callback_bind_address, check_state, derive_code_challenge,
    generate_code_verifier, generate_state, login_credentials, login_success_message,
    login_tokens, logout_message, parse_callback_request, redirect_uri, token_payload,
    username_from_claims, whoami_message,
};
use insighta::error::CliError;
use insighta::json::JsonValue;

fn s(text: &str) -> JsonValue {
    JsonValue::Str(text.to_string())
}

fn obj(entries: Vec<(&str, JsonValue)>) -> JsonValue {
    JsonValue::Object {
        entries: entries.into_iter().map(|(k, v)| (k.to_string(), v)).collect(),
        text: String::from("{}"),
    }
}

fn api(message: &str) -> CliError {
    CliError::Api(message.to_string())
}

#[test]
fn verifier_is_64_lower_hex_chars() {
    let v = generate_code_verifier();
    assert_eq!(v.len(), 64);
    assert!(v.chars().all(|c| c.is_ascii_digit() || ('a'..='f').contains(&c)));
    assert_ne!(generate_code_verifier(), v);
}

#[test]
fn state_is_32_lower_hex_chars() {
    let st = generate_state();
    assert_eq!(st.len(), 32);
    assert!(st.chars().all(|c| c.is_ascii_digit() || ('a'..='f').contains(&c)));
}

#[test]
fn challenge_matches_rfc7636_example() {
    let challenge = derive_code_challenge("dBjftJeZ4CVP-mB92K27uhbUJU1p1r_wW1gFWFOEjXk");
    assert_eq!(challenge, "E9Melhoa2OwvFrEMTJguCHaoeK1t8URWbuGJSstw-cM");
}

#[test]
fn challenge_of_empty_verifier() {
    // SHA-256 of the empty string, in URL-safe base64 without padding.
    assert_eq!(derive_code_challenge(""), "47DEQpj8HBSa-_TImW-5JCeuQeRkm5NMpJWZG3hSuFU");
    assert_eq!(derive_code_challenge("abc").len(), 43);
}

#[test]
fn redirect_and_bind_address() {
    assert_eq!(redirect_uri(8182), "http://127.0.0.1:8182/callback");
    assert_eq!(redirect_uri(0), "http://127.0.0.1:0/callback");
    assert_eq!(callback_bind_address(65535), "127.0.0.1:65535");
}

#[test]
fn authorization_url_encodes_redirect() {
    let url = authorization_url("http://localhost:8000", "abc123", "XYZ-_", 8182);
    assert_eq!(
        url,
        "http://localhost:8000/auth/github?state=abc123&code_challenge=XYZ-_&redirect_uri=http%3A%2F%2F127.0.0.1%3A8182%2Fcallback"
    );
}

#[test]
fn callback_with_code_and_state() {
    let r = parse_callback_request("GET /callback?code=abc&state=xyz HTTP/1.1\r\n");
    assert_eq!(r, Ok(("abc".to_string(), "xyz".to_string())));
}

#[test]
fn callback_last_value_wins_and_others_ignored() {
    let r = parse_callback_request("GET /callback?state=s1&code=c&foo=bar&state=s2&flag HTTP/1.1");
    assert_eq!(r, Ok(("c".to_string(), "s2".to_string())));
}

#[test]
fn callback_value_keeps_later_equals_signs() {
    let r = parse_callback_request("GET /cb?code=a=b&state=%41 HTTP/1.1");
    assert_eq!(r, Ok(("a=b".to_string(), "%41".to_string())));
}

#[test]
fn callback_error_uses_decoded_description() {
    let r = parse_callback_request(
        "GET /callback?error=access_denied&error_description=The%20user%20denied&state=x HTTP/1.1",
    );
    assert_eq!(r, Err(api("GitHub authorization failed: The user denied")));
}

#[test]
fn callback_error_without_description() {
    let r = parse_callback_request("GET /callback?code=c&state=s&error=access%5Fdenied HTTP/1.1");
    assert_eq!(r, Err(api("GitHub authorization failed: access_denied")));
}

#[test]
fn callback_error_with_invalid_utf8_reads_empty() {
    let r = parse_callback_request("GET /callback?error=%FF HTTP/1.1");
    assert_eq!(r, Err(api("GitHub authorization failed: ")));
}

#[test]
fn callback_missing_parameters() {
    let missing = api("Callback did not contain expected parameters");
    assert_eq!(parse_callback_request("GET /callback?code=c HTTP/1.1"), Err(missing.clone()));
    assert_eq!(parse_callback_request("GET /callback HTTP/1.1"), Err(missing.clone()));
    assert_eq!(parse_callback_request(""), Err(missing.clone()));
    assert_eq!(parse_callback_request("GET"), Err(missing.clone()));
    assert_eq!(parse_callback_request("GET /callback?code&state HTTP/1.1"), Err(missing));
}

#[test]
fn callback_words_split_on_any_whitespace() {
    let r = parse_callback_request("  GET\t\t/x?state=s&code=c \u{3000}HTTP/1.1");
    assert_eq!(r, Ok(("c".to_string(), "s".to_string())));
}

#[test]
fn state_check() {
    assert_eq!(check_state("abc", "abc"), Ok(()));
    assert_eq!(check_state("abc", "abd"), Err(api("State mismatch — possible CSRF")));
}

#[test]
fn login_reply_success() {
    let reply = obj(vec![
        ("status", s("success")),
        ("access_token", s("a.b.c")),
        ("refresh_token", s("r1")),
    ]);
    assert_eq!(login_tokens(&Some(reply)), Ok(("a.b.c".to_string(), "r1".to_string())));
}

#[test]
fn login_reply_failures() {
    assert_eq!(login_tokens(&None), Err(api("Failed to parse login response")));
    let failed = obj(vec![("status", s("error")), ("message", s("Bad code"))]);
    assert_eq!(login_tokens(&Some(failed)), Err(api("Bad code")));
    let no_status = obj(vec![("access_token", s("a"))]);
    assert_eq!(login_tokens(&Some(no_status)), Err(api("Login failed")));
    let no_access = obj(vec![("status", s("success")), ("refresh_token", s("r"))]);
    assert_eq!(login_tokens(&Some(no_access)), Err(api("Missing access_token in response")));
    let no_refresh = obj(vec![("status", s("success")), ("access_token", s("a"))]);
    assert_eq!(login_tokens(&Some(no_refresh)), Err(api("Missing refresh_token in response")));
}

#[test]
fn token_payload_decodes_second_segment() {
    // {"username":"octocat"}
    let token = "eyJhbGciOiJIUzI1NiJ9.eyJ1c2VybmFtZSI6Im9jdG9jYXQifQ.sig";
    assert_eq!(token_payload(token), Some(b"{\"username\":\"octocat\"}".to_vec()));
}

#[test]
fn token_payload_rejects_bad_tokens() {
    assert_eq!(token_payload("no-dots"), None);
    assert_eq!(token_payload("a.eyJ=.c"), None);
    assert_eq!(token_payload("a.Q.c"), None);
    assert_eq!(token_payload("a..c"), Some(Vec::new()));
    assert_eq!(token_payload("a.QQ"), Some(b"A".to_vec()));
}

#[test]
fn credentials_from_claims() {
    let claims = obj(vec![("username", s("octocat")), ("role", s("admin"))]);
    assert_eq!(username_from_claims(&claims), Some("octocat".to_string()));
    let c = login_credentials("a".to_string(), "r".to_string(), Some(&claims)).unwrap();
    assert_eq!(c.access_token, "a");
    assert_eq!(c.refresh_token, "r");
    assert_eq!(c.username, "octocat");
    let unnamed = obj(vec![("username", JsonValue::Null)]);
    assert_eq!(
        login_credentials("a".to_string(), "r".to_string(), Some(&unnamed)),
        Err(api("Could not read username from token"))
    );
    assert_eq!(
        login_credentials("a".to_string(), "r".to_string(), None),
        Err(api("Could not read username from token"))
    );
}

#[test]
fn messages_of_login_logout_whoami() {
    assert_eq!(login_success_message("octocat"), "Logged in as @octocat");
    assert_eq!(
        logout_message(None),
        "Logged out. (Warning: could not reach server to invalidate session)"
    );
    assert_eq!(logout_message(Some(204)), "Logged out.");
    assert_eq!(logout_message(Some(401)), "Logged out.");
    assert_eq!(logout_message(Some(404)), "Logged out.");
    assert_eq!(logout_message(Some(500)), "Logged out. (Warning: server responded with 500)");
    assert_eq!(logout_message(Some(400)), "Logged out. (Warning: server responded with 400)");
    let me = obj(vec![("data", obj(vec![("username", s("octocat")), ("role", s("admin"))]))]);
    assert_eq!(whoami_message(&me), "Logged in as @octocat (admin)");
    assert_eq!(whoami_message(&obj(vec![])), "Logged in as @unknown (analyst)");
}
