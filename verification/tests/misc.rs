use blueflame::acl::current_user_only_sddl;
use blueflame::b64::base64_encode;
use blueflame::browser::{TabInfo, TabsView};
use blueflame::ca::{
    advance, begin_migration, cert_is_stale, hex_encode, must_capture_legacy_thumbprint, Migration,
    MigrationAction, Outcome,
};
use blueflame::context_menu::fresh_token;
use blueflame::dns::DohProvider;
use blueflame::favicons::{
    accept_body, data_url, entry_payload, favicon_mime, favicon_url, miss_payload, parse_entry, path_for,
    safe_host, MAX_BYTES,
};
use blueflame::html::{escape_attr, escape_html};
use blueflame::session::{session_path, snapshot};
use blueflame::storage::{contains_pattern, escape_like, merge_suggestions, should_record_visit, SuggestionSource, Visit};
use std::collections::HashSet;

#[test]
fn base64_matches_rfc4648_vectors() {
    assert_eq!(base64_encode(b""), "");
    assert_eq!(base64_encode(b"f"), "Zg==");
    assert_eq!(base64_encode(b"fo"), "Zm8=");
    assert_eq!(base64_encode(b"foo"), "Zm9v");
    assert_eq!(base64_encode(b"foobar"), "Zm9vYmFy");
}

#[test]
fn html_escaping_is_inert() {
    assert_eq!(escape_html("a<b>&'\""), "a&lt;b&gt;&amp;&#39;&quot;");
    assert_eq!(escape_attr("\"x\""), "&quot;x&quot;");
}

#[test]
fn favicon_entry_round_trips() {
    let p = entry_payload("image/png", &[1, 2, 3]);
    assert_eq!(parse_entry(&p), Some(("image/png".to_string(), vec![1, 2, 3])));
    assert_eq!(parse_entry(&miss_payload()), None);
    assert_eq!(parse_entry(b"no separator"), None);
}

#[test]
fn favicon_names_and_urls() {
    assert_eq!(safe_host("a.b-c:80/x"), "a.b-c_80_x");
    assert!(path_for("/data", "example.com").ends_with("example.com.dat"));
    assert_eq!(favicon_url("example.com"), "https://example.com/favicon.ico");
    assert_eq!(data_url("image/png", &[0, 1, 2]), "data:image/png;base64,AAEC");
    assert_eq!(favicon_mime(Some(" image/png ; charset=x")), "image/png");
    assert_eq!(favicon_mime(Some("")), "image/x-icon");
    assert_eq!(favicon_mime(None), "image/x-icon");
    assert!(accept_body(1));
    assert!(accept_body(MAX_BYTES));
    assert!(!accept_body(0));
    assert!(!accept_body(MAX_BYTES + 1));
}

#[test]
fn doh_provider_ids_round_trip() {
    for p in DohProvider::all() {
        assert_eq!(DohProvider::from_id(p.id()), Some(*p));
    }
    assert_eq!(DohProvider::Quad9.doh_url(), Some("https://dns.quad9.net/dns-query"));
    assert_eq!(DohProvider::from_id("nope"), None);
}

#[test]
fn sddl_grants_only_the_user() {
    assert_eq!(current_user_only_sddl("S-1-5-21-1"), "D:P(A;;GA;;;S-1-5-21-1)");
}

#[test]
fn context_token_is_padded_hex() {
    assert_eq!(fresh_token(0xab, 1, 2), "00000000000000ab0000000100000002");
}

#[test]
fn like_patterns_escape_wildcards() {
    assert_eq!(escape_like("50%_off\\"), "50\\%\\_off\\\\");
    assert_eq!(contains_pattern("a_b"), "%a\\_b%");
    assert!(should_record_visit("https://x.example"));
    assert!(!should_record_visit("data:text/html,x"));
    assert!(!should_record_visit("about:blank"));
    assert!(!should_record_visit(""));
}

fn visit(url: &str, count: i64) -> Visit {
    Visit { id: 0, url: url.into(), title: url.into(), visited_at: 0, visit_count: count }
}

#[test]
fn suggestions_prefer_bookmarks_and_dedupe() {
    let bookmarks = vec![("https://a.example".to_string(), "A".to_string())];
    let hits = vec![visit("https://a.example", 5), visit("https://b.example", 2), visit("https://c.example", 1)];
    let s = merge_suggestions(&bookmarks, &hits, 2);
    assert_eq!(s.len(), 2);
    assert_eq!(s[0].url, "https://a.example");
    assert_eq!(s[0].source, SuggestionSource::Bookmark);
    assert_eq!(s[1].url, "https://b.example");
    assert_eq!(s[1].source, SuggestionSource::History);
}

fn tab(id: u64, url: &str, private: bool) -> TabInfo {
    TabInfo { id, url: url.into(), title: format!("t{id}"), loading: false, private }
}

#[test]
fn session_keeps_public_web_tabs() {
    let view = TabsView {
        tabs: vec![
            tab(1, "https://a.example", false),
            tab(2, "data:text/html,x", false),
            tab(3, "https://secret.example", true),
            tab(4, "https://b.example", false),
        ],
        active_id: Some(4),
    };
    let s = snapshot(&view);
    assert_eq!(s.tabs.len(), 2);
    assert_eq!(s.tabs[1].url, "https://b.example");
    assert_eq!(s.active_index, Some(1));
    let hidden = snapshot(&TabsView { tabs: view.tabs.clone(), active_id: Some(3) });
    assert_eq!(hidden.active_index, None);
    assert!(session_path("/data").ends_with("session.json"));
}

#[test]
fn ca_helpers() {
    assert_eq!(hex_encode(&[0xde, 0xad, 0x01]), "dead01");
    assert!(cert_is_stale(false, Some("x"), "x"));
    assert!(cert_is_stale(true, None, "x"));
    assert!(cert_is_stale(true, Some("y"), "x"));
    assert!(!cert_is_stale(true, Some("x"), "x"));
    assert!(must_capture_legacy_thumbprint(true, false));
    assert!(!must_capture_legacy_thumbprint(true, true));
    assert!(!must_capture_legacy_thumbprint(false, false));
}

/// A trust store that answers the migration's actions; `fail_install`
/// makes the install step fail.
struct FakeStore {
    trusted: HashSet<String>,
    fail_install: bool,
    key_deleted: bool,
}

fn drive(store: &mut FakeStore, legacy: &str, new_root: &str) -> Migration {
    let (mut state, mut action) = begin_migration();
    loop {
        let outcome = match &action {
            MigrationAction::ReadLegacyThumbprint => Outcome::Text(format!(" {legacy}\n")),
            MigrationAction::InstallNewRoot => {
                if store.fail_install {
                    Outcome::Failed
                } else {
                    store.trusted.insert(new_root.to_string());
                    Outcome::Done
                }
            }
            MigrationAction::ThumbprintNewRoot => Outcome::Text(new_root.to_string()),
            MigrationAction::IsTrusted(t) => {
                if store.trusted.contains(t) {
                    Outcome::Yes
                } else {
                    Outcome::No
                }
            }
            MigrationAction::RemoveRoot(t) => {
                store.trusted.remove(t);
                Outcome::Done
            }
            MigrationAction::SecureDeleteLegacyKey => {
                store.key_deleted = true;
                Outcome::Done
            }
            MigrationAction::RemoveThumbprintFile => Outcome::Done,
            MigrationAction::Stop => return state,
        };
        let (s, a) = advance(&state, &outcome);
        state = s;
        action = a;
    }
}

#[test]
fn migration_install_failure_halts_then_retry_completes() {
    let mut store = FakeStore { trusted: HashSet::from(["old".to_string()]), fail_install: true, key_deleted: false };
    assert_eq!(drive(&mut store, "old", "new"), Migration::Halted);
    assert!(store.trusted.contains("old"));
    assert!(!store.key_deleted);
    store.fail_install = false;
    assert_eq!(drive(&mut store, "old", "new"), Migration::Finished);
    assert!(store.trusted.contains("new"));
    assert!(!store.trusted.contains("old"));
    assert!(store.key_deleted);
}

#[test]
fn migration_skips_removing_an_old_root_already_gone() {
    let mut store = FakeStore { trusted: HashSet::new(), fail_install: false, key_deleted: false };
    assert_eq!(drive(&mut store, "old", "new"), Migration::Finished);
    assert!(store.key_deleted);
}
