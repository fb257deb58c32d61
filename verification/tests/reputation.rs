use blueflame::reputation::{default_feeds, feed_status, load_cached, parse_feed, ReputationStore};

#[test]
fn bundled_is_matched_out_of_the_box() {
    let s = ReputationStore::with_bundled();
    assert!(s.is_known_bad("phishing.example.test"));
    assert!(s.is_known_bad("malware.example.test"));
    assert!(!s.is_known_bad("example.com"));
}

#[test]
fn subdomain_of_listed_host_matches() {
    let s = ReputationStore::with_bundled();
    assert!(s.is_known_bad("login.phishing.example.test"));
    assert!(s.is_known_bad("deep.nested.malware.example.test"));
}

#[test]
fn extend_merges_new_hosts() {
    let mut s = ReputationStore::with_bundled();
    let before = s.len();
    s.extend(vec!["EVIL.example".to_string(), "  ".to_string()]);
    assert_eq!(s.len(), before + 1);
    assert!(s.is_known_bad("evil.example"));
}

#[test]
fn parse_feed_extracts_hosts_and_skips_comments() {
    let body = "\
# URLHaus feed
https://bad.example/malware.exe
http://PHISH.example/login?a=1

# blank line above
not-a-url
https://bad.example/other
";
    let set = parse_feed(body);
    assert!(set.contains(&"bad.example".to_string()));
    assert!(set.contains(&"phish.example".to_string()));
    assert_eq!(set.len(), 2);
}

#[test]
fn empty_host_never_matches() {
    let s = ReputationStore::with_bundled();
    assert!(!s.is_known_bad(""));
    assert!(!s.is_known_bad("   "));
}

#[test]
fn lookalike_suffix_is_not_a_subdomain() {
    let s = ReputationStore::with_bundled();
    assert!(!s.is_known_bad("notphishing.example.test"));
}

#[test]
fn cached_feed_is_parsed_when_present() {
    assert!(load_cached(None).is_none());
    let hosts = load_cached(Some("https://x.example/a\n")).unwrap();
    assert_eq!(hosts, vec!["x.example".to_string()]);
}

#[test]
fn feed_status_reflects_cache() {
    let feeds = default_feeds();
    let st = feed_status(&feeds[0], Some(Some(42)));
    assert!(st.cached);
    assert_eq!(st.cached_at, Some(42));
    assert_eq!(st.name, feeds[0].name);
    let none = feed_status(&feeds[0], None);
    assert!(!none.cached);
    assert_eq!(none.cached_at, None);
}
