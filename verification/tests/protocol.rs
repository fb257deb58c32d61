use blueflame::protocol::{check_handshake, refusal_line, Handshake, HandshakeOutcome};
use blueflame::token::SessionToken;

fn token() -> SessionToken {
    SessionToken::from_str_for_test("abc123")
}

/// The first line parsed as a handshake: a JSON object with a string
/// `token` field.
fn parsed(line: &str) -> Option<Handshake> {
    let v: serde_json::Value = serde_json::from_str(line.trim_end()).ok()?;
    let t = v.as_object()?.get("token")?.as_str()?;
    Some(Handshake { token: t.to_string() })
}

fn check(line: &str) -> HandshakeOutcome {
    check_handshake(parsed(line).as_ref(), &token())
}

#[test]
fn accepts_matching_token() {
    assert_eq!(check(r#"{"token":"abc123"}"#), HandshakeOutcome::Accepted);
}

#[test]
fn pipe_rejects_wrong_token() {
    assert_eq!(check(r#"{"token":"wrong"}"#), HandshakeOutcome::WrongToken);
}

#[test]
fn rejects_empty_token() {
    assert_eq!(check(r#"{"token":""}"#), HandshakeOutcome::WrongToken);
}

#[test]
fn pipe_rejects_malformed_json() {
    assert_eq!(check("not json"), HandshakeOutcome::NotJson);
    assert_eq!(check("{}"), HandshakeOutcome::NotJson);
    assert_eq!(check(r#"{"nottoken":"abc123"}"#), HandshakeOutcome::NotJson);
}

#[test]
fn tolerates_trailing_newline_from_read_line() {
    assert_eq!(check("{\"token\":\"abc123\"}\n"), HandshakeOutcome::Accepted);
}

#[test]
fn refusal_lines() {
    assert_eq!(refusal_line(HandshakeOutcome::Accepted), None);
    assert_eq!(
        refusal_line(HandshakeOutcome::NotJson),
        Some(r#"{"ok":false,"error":"expected a token handshake first"}"#)
    );
    assert_eq!(refusal_line(HandshakeOutcome::WrongToken), Some(r#"{"ok":false,"error":"invalid token"}"#));
}
