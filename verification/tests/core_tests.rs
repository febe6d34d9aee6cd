use insighta::client::{
    answer_step, bearer_header, interpret_response, refresh_outcome, request_url,
    AnswerStep, RefreshOutcome, RefreshReply,
};
use insighta::config::{backend_url_from, callback_port_from};
use insighta::credentials::Credentials;
use insighta::error::CliError;
use insighta::json::{JsonNumber, JsonValue};
use insighta::text::{i64_to_decimal, parse_u16, u64_to_decimal};

fn obj(entries: Vec<(&str, JsonValue)>) -> JsonValue {
    JsonValue::Object {
        entries: entries.into_iter().map(|(k, v)| (k.to_string(), v)).collect(),
        text: String::from("{}"),
    }
}

fn creds() -> Credentials {
    Credentials::new("old-a".to_string(), "old-r".to_string(), "octocat".to_string())
}

#[test]
fn error_messages() {
    assert_eq!(CliError::NotLoggedIn.message(), "Not logged in. Run 'insighta login' first.");
    assert_eq!(
        CliError::TokenExpired.message(),
        "Session expired. Run 'insighta login' to re-authenticate."
    );
    assert_eq!(CliError::Api("Admin access required".into()).message(), "API error: Admin access required");
    assert_eq!(CliError::Io("denied".into()).message(), "IO error: denied");
    assert_eq!(CliError::Http("refused".into()).message(), "HTTP error: refused");
}

#[test]
fn decimal_rendering() {
    assert_eq!(u64_to_decimal(0), "0");
    assert_eq!(u64_to_decimal(2026), "2026");
    assert_eq!(u64_to_decimal(u64::MAX), "18446744073709551615");
    assert_eq!(i64_to_decimal(-42), "-42");
    assert_eq!(i64_to_decimal(i64::MIN), "-9223372036854775808");
    assert_eq!(i64_to_decimal(7), "7");
}

#[test]
fn u16_parsing_matches_std() {
    for text in ["8182", "+8182", "0", "007", "65535", "65536", "", "+", "-1", " 1", "1 ", "12a", "99999999999"] {
        assert_eq!(parse_u16(text), text.parse::<u16>().ok(), "{text:?}");
    }
}

#[test]
fn config_values() {
    assert_eq!(backend_url_from(None), "http://localhost:8000");
    assert_eq!(backend_url_from(Some("https://api.example".into())), "https://api.example");
    assert_eq!(callback_port_from(None), 8182);
    assert_eq!(callback_port_from(Some("9000")), 9000);
    assert_eq!(callback_port_from(Some("not a port")), 8182);
    assert_eq!(callback_port_from(Some("70000")), 8182);
}

#[test]
fn request_pieces() {
    assert_eq!(request_url("http://localhost:8000", "/auth/me"), "http://localhost:8000/auth/me");
    assert_eq!(bearer_header("tok"), "Bearer tok");
    assert_eq!(answer_step(false, 401), AnswerStep::RenewAndResend);
    assert_eq!(answer_step(true, 401), AnswerStep::Deliver);
    assert_eq!(answer_step(false, 403), AnswerStep::Deliver);
    assert_eq!(answer_step(false, 200), AnswerStep::Deliver);
}

#[test]
fn refresh_decisions() {
    assert_eq!(refresh_outcome(&creds(), None), RefreshOutcome::Expired { forget_stored: false });
    let failed = RefreshReply { status: "error".into(), access_token: Some("a".into()), refresh_token: Some("r".into()) };
    assert_eq!(refresh_outcome(&creds(), Some(failed)), RefreshOutcome::Expired { forget_stored: true });
    let partial = RefreshReply { status: "success".into(), access_token: Some("a".into()), refresh_token: None };
    assert_eq!(refresh_outcome(&creds(), Some(partial)), RefreshOutcome::Expired { forget_stored: false });
    let ok = RefreshReply { status: "success".into(), access_token: Some("a2".into()), refresh_token: Some("r2".into()) };
    assert_eq!(
        refresh_outcome(&creds(), Some(ok)),
        RefreshOutcome::Renewed(Credentials::new("a2".into(), "r2".into(), "octocat".into()))
    );
}

#[test]
fn response_interpretation() {
    assert_eq!(interpret_response(200, None), Err(CliError::Api("Failed to parse response".into())));
    let body = obj(vec![("message", JsonValue::Str("Admin access required".into()))]);
    assert_eq!(interpret_response(403, Some(body)), Err(CliError::Api("Admin access required".into())));
    let no_message = obj(vec![("total", JsonValue::Number(JsonNumber::PosInt(3)))]);
    assert_eq!(interpret_response(500, Some(no_message)), Err(CliError::Api("Unknown error".into())));
    let ok = obj(vec![("status", JsonValue::Str("success".into()))]);
    let expected = obj(vec![("status", JsonValue::Str("success".into()))]);
    assert_eq!(interpret_response(399, Some(ok)), Ok(expected));
}

#[test]
fn json_lookup_first_member_and_kinds() {
    let v = obj(vec![
        ("a", JsonValue::Number(JsonNumber::PosInt(5))),
        ("s", JsonValue::Str("x".into())),
    ]);
    assert_eq!(v.get("a").and_then(|x| x.as_u64()), Some(5));
    assert_eq!(v.get("s").and_then(|x| x.as_u64()), None);
    assert_eq!(v.str_field("s"), Some(&"x".to_string()));
    assert_eq!(v.get("missing"), None);
    assert_eq!(JsonValue::Null.get("a"), None);
    assert_eq!(v.str_field_or("missing", "dflt"), "dflt");
}
