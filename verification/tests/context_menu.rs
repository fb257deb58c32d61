use blueflame::context_menu::{
    check_envelope, check_event_token, fresh_token, to_request, Envelope, MenuRequest, RejectReason,
    TabEventKind, MARKER, MAX_MESSAGE_BYTES,
};
use serde_json::Value;

const TOKEN: &str = "abc123token";

fn open_message(bf: &str, token: &str) -> String {
    format!(
        r#"{{"bf":"{bf}","token":"{token}","event":{{"kind":"open","page":"https://example.com","x":1,"y":2,"link":"","linkText":"","image":"","sel":""}}}}"#
    )
}

fn text(v: &Value, k: &str) -> Option<String> {
    v.get(k)?.as_str().map(|s| s.to_string())
}

/// The event a message carries, if it has one of the known shapes.
fn event_of(v: &Value) -> Option<TabEventKind> {
    let e = v.get("event")?;
    match e.get("kind")?.as_str()? {
        "open" => {
            e.get("x")?.as_f64()?;
            e.get("y")?.as_f64()?;
            Some(TabEventKind::Open {
                page: text(e, "page")?,
                link: text(e, "link"),
                link_text: text(e, "linkText"),
                image: text(e, "image"),
                sel: text(e, "sel"),
            })
        }
        "dismiss" => Some(TabEventKind::Dismiss),
        "kbd" => Some(TabEventKind::Kbd {
            key: text(e, "key")?,
            shift: e.get("shift").and_then(|s| s.as_bool()).unwrap_or(false),
        }),
        "middleclick" => Some(TabEventKind::Middleclick { url: text(e, "url")? }),
        _ => None,
    }
}

/// Parse a posted message the way the shell does, then let the library
/// judge it; the event comes back when it passes.
fn parse_tab_event_message(raw: &str, expected: &str) -> Result<TabEventKind, RejectReason> {
    let parsed: Option<(Envelope, TabEventKind)> = if raw.len() > MAX_MESSAGE_BYTES {
        None
    } else {
        serde_json::from_str::<Value>(raw).ok().and_then(|v| {
            let env = Envelope { bf: text(&v, "bf")?, token: text(&v, "token")? };
            Some((env, event_of(&v)?))
        })
    };
    check_envelope(raw.len(), parsed.as_ref().map(|p| &p.0), expected)?;
    match parsed {
        Some((_, ev)) => Ok(ev),
        None => Err(RejectReason::Malformed),
    }
}

#[test]
fn accepts_a_well_formed_open_event() {
    let raw = open_message(MARKER, TOKEN);
    let event = parse_tab_event_message(&raw, TOKEN).expect("should parse");
    assert!(matches!(event, TabEventKind::Open { .. }));
}

#[test]
fn rejects_wrong_marker() {
    let raw = open_message("something-else", TOKEN);
    assert_eq!(parse_tab_event_message(&raw, TOKEN).unwrap_err(), RejectReason::WrongMarker);
}

#[test]
fn tab_channel_rejects_wrong_token() {
    let raw = open_message(MARKER, "not-the-token");
    assert_eq!(parse_tab_event_message(&raw, TOKEN).unwrap_err(), RejectReason::BadToken);
}

#[test]
fn tab_channel_rejects_malformed_json() {
    let raw = "{ this is not json";
    assert_eq!(parse_tab_event_message(raw, TOKEN).unwrap_err(), RejectReason::Malformed);
}

#[test]
fn rejects_json_missing_required_fields() {
    let raw = r#"{"bf":"tab-event"}"#;
    assert_eq!(parse_tab_event_message(raw, TOKEN).unwrap_err(), RejectReason::Malformed);
}

#[test]
fn rejects_unknown_event_kind() {
    let raw = format!(r#"{{"bf":"{MARKER}","token":"{TOKEN}","event":{{"kind":"not-a-real-kind"}}}}"#);
    assert_eq!(parse_tab_event_message(&raw, TOKEN).unwrap_err(), RejectReason::Malformed);
}

#[test]
fn rejects_oversized_messages_before_parsing() {
    let padding = "a".repeat(MAX_MESSAGE_BYTES + 1);
    let raw = format!(r#"{{"bf":"{MARKER}","token":"{TOKEN}","pad":"{padding}"}}"#);
    assert_eq!(parse_tab_event_message(&raw, TOKEN).unwrap_err(), RejectReason::TooLarge);
}

#[test]
fn accepts_dismiss_kbd_and_middleclick_shapes() {
    let dismiss = format!(r#"{{"bf":"{MARKER}","token":"{TOKEN}","event":{{"kind":"dismiss"}}}}"#);
    assert!(matches!(parse_tab_event_message(&dismiss, TOKEN).unwrap(), TabEventKind::Dismiss));

    let kbd = format!(r#"{{"bf":"{MARKER}","token":"{TOKEN}","event":{{"kind":"kbd","key":"t","shift":true}}}}"#);
    assert!(matches!(
        parse_tab_event_message(&kbd, TOKEN).unwrap(),
        TabEventKind::Kbd { key, shift } if key == "t" && shift
    ));

    let middleclick = format!(
        r#"{{"bf":"{MARKER}","token":"{TOKEN}","event":{{"kind":"middleclick","url":"https://example.com"}}}}"#
    );
    assert!(matches!(
        parse_tab_event_message(&middleclick, TOKEN).unwrap(),
        TabEventKind::Middleclick { url } if url == "https://example.com"
    ));
}

#[test]
fn open_event_becomes_a_menu_request_without_empty_fields() {
    let raw = open_message(MARKER, TOKEN);
    let event = parse_tab_event_message(&raw, TOKEN).unwrap();
    match to_request(event).unwrap() {
        MenuRequest::Open { page_url, link_url, link_text, image_url, selection_text } => {
            assert_eq!(page_url, "https://example.com");
            assert!(link_url.is_none() && link_text.is_none() && image_url.is_none() && selection_text.is_none());
        }
        _ => panic!("expected an open request"),
    }
}

#[test]
fn shortcut_and_middleclick_need_their_field() {
    assert_eq!(
        to_request(TabEventKind::Kbd { key: String::new(), shift: false }).err().unwrap(),
        "kbd event missing key"
    );
    assert_eq!(
        to_request(TabEventKind::Middleclick { url: String::new() }).err().unwrap(),
        "middleclick event missing url"
    );
    assert!(matches!(
        to_request(TabEventKind::Middleclick { url: "https://a.example".into() }).ok().unwrap(),
        MenuRequest::OpenInNewTab { url } if url == "https://a.example"
    ));
}

#[test]
fn event_tokens_must_match_exactly() {
    let t = fresh_token(1, 2, 3);
    assert!(check_event_token(&t, &t).is_ok());
    assert_eq!(check_event_token(&t, "short").unwrap_err(), "token length mismatch");
    let mut other = t.clone();
    other.replace_range(0..1, "f");
    assert_eq!(check_event_token(&t, &other).unwrap_err(), "token mismatch");
}

#[test]
fn fresh_tokens_are_32_hex_digits_and_differ_by_counter() {
    let a = fresh_token(0x1234_5678_9abc_def0, 4242, 0);
    let b = fresh_token(0x1234_5678_9abc_def0, 4242, 1);
    for t in [&a, &b] {
        assert_eq!(t.len(), 32);
        assert!(t.chars().all(|c| c.is_ascii_digit() || ('a'..='f').contains(&c)));
    }
    assert_ne!(a, b);
    assert_eq!(a, "123456789abcdef00000109200000000");
    let max = fresh_token(u64::MAX, u32::MAX, 0xffff_ffff);
    assert_eq!(max, "ffffffffffffffffffffffffffffffff");
}
