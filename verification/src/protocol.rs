//! The control pipe's first exchange: a client opens with a handshake
//! carrying the session token, and is let in only when it matches.
//! Reading the line and parsing its JSON is the shell's work; it hands
//! over the parsed handshake, or `None` when the line was not one.

use vstd::prelude::*;

use crate::token::SessionToken;

verus! {

/// The first line a control client sends.
#[derive(Debug)]
pub struct Handshake {
    pub token: String,
}

/// What becomes of a connection after its first line.
#[derive(Debug, Clone, Copy, PartialEq, Eq, Structural)]
pub enum HandshakeOutcome {
    /// The token matches: the client may send requests.
    Accepted,
    /// The line was not a handshake.
    NotJson,
    /// A handshake with some other token.
    WrongToken,
}

/// The outcome for a first line that parsed as `parsed` (`None`: it did
/// not parse as a handshake), against the session `token`.
pub fn check_handshake(parsed: Option<&Handshake>, token: &SessionToken) -> (r: HandshakeOutcome)
    ensures
        r == (match parsed {
            None => HandshakeOutcome::NotJson,
            Some(h) => if token@ == h.token@ {
                HandshakeOutcome::Accepted
            } else {
                HandshakeOutcome::WrongToken
            },
        }),
{
    match parsed {
        None => HandshakeOutcome::NotJson,
        Some(h) => if token.matches(h.token.as_str()) {
            HandshakeOutcome::Accepted
        } else {
            HandshakeOutcome::WrongToken
        },
    }
}

/// The line written back to a refused client, `None` for an accepted one.
pub fn refusal_line(outcome: HandshakeOutcome) -> (r: Option<&'static str>)
    ensures
        outcome == HandshakeOutcome::Accepted <==> r is None,
        outcome == HandshakeOutcome::NotJson ==> r == Some(
            r#"{"ok":false,"error":"expected a token handshake first"}"#,
        ),
        outcome == HandshakeOutcome::WrongToken ==> r == Some(r#"{"ok":false,"error":"invalid token"}"#),
{
    match outcome {
        HandshakeOutcome::Accepted => None,
        HandshakeOutcome::NotJson => Some(r#"{"ok":false,"error":"expected a token handshake first"}"#),
        HandshakeOutcome::WrongToken => Some(r#"{"ok":false,"error":"invalid token"}"#),
    }
}

} // verus!
