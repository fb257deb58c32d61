use blueflame::proxy::{
    any_insecure_cookie, cookie_is_insecure, default_filter_patterns, host_is_always_allowed, on_request,
    parse_usize, record_page_body, request_blocked, should_analyze_body, BlockLog, ProxyStats,
    BLOCK_LOG_CAPACITY,
};
use blueflame::list_loader::{FilterSet, SIZE_LIMIT};
use blueflame::security::SecurityStore;
use regex::RegexSet;

#[test]
fn default_filters_match_known_trackers() {
    let rs = RegexSet::new(default_filter_patterns()).unwrap();
    assert!(rs.is_match("https://www.google-analytics.com/collect?v=1"));
    assert!(rs.is_match("https://stats.doubleclick.net/dc.js"));
    assert!(rs.is_match("https://connect.facebook.com/tr?id=123"));
}

#[test]
fn default_filters_let_regular_traffic_through() {
    let rs = RegexSet::new(default_filter_patterns()).unwrap();
    assert!(!rs.is_match("https://example.com/index.html"));
    assert!(!rs.is_match("https://github.com/w1ck3ds0d4/BlueFlame"));
}

#[test]
fn stats_snapshot_is_stable() {
    let mut stats = ProxyStats::default();
    stats.requests_total = 10;
    stats.requests_blocked = 3;
    stats.bytes_saved = 6144;
    let snap = stats.snapshot();
    assert_eq!(snap.requests_total, 10);
    assert_eq!(snap.requests_blocked, 3);
    assert_eq!(snap.bytes_saved, 6144);
}

#[test]
fn search_engine_hosts_bypass_filters() {
    assert!(host_is_always_allowed("duckduckgo.com"));
    assert!(host_is_always_allowed("Improving.DuckDuckGo.com"));
    assert!(!host_is_always_allowed("notduckduckgo.com"));
    assert!(!host_is_always_allowed("example.com"));
}

fn filters() -> Vec<FilterSet> {
    let patterns: Vec<String> = default_filter_patterns().iter().map(|p| p.to_string()).collect();
    vec![FilterSet::build(patterns, SIZE_LIMIT).unwrap()]
}

#[test]
fn request_blocking_decision() {
    let f = filters();
    let url = "https://stats.doubleclick.net/dc.js";
    assert!(request_blocked(true, Some("stats.doubleclick.net"), &f, url));
    assert!(!request_blocked(false, Some("stats.doubleclick.net"), &f, url));
    assert!(!request_blocked(true, Some("example.com"), &f, "https://example.com/"));
    assert!(!request_blocked(true, Some("duckduckgo.com"), &f, "https://duckduckgo.com/?q=x&doubleclick.net/"));
}

#[test]
fn blocked_request_is_counted_and_logged() {
    let mut stats = ProxyStats::default();
    let mut log = BlockLog::default();
    let mut sec = SecurityStore::default();
    let f = filters();
    let url = "https://stats.doubleclick.net/dc.js";
    assert!(on_request(&mut stats, &mut log, &mut sec, true, Some("stats.doubleclick.net"), &f, url, Some("https://news.example/"), 100));
    assert!(!on_request(&mut stats, &mut log, &mut sec, true, Some("news.example"), &f, "https://news.example/a.css", Some("https://news.example/"), 101));
    assert_eq!(stats.requests_total, 2);
    assert_eq!(stats.requests_blocked, 1);
    assert_eq!(stats.bytes_saved, 2048);
    let recent = log.recent(BLOCK_LOG_CAPACITY);
    assert_eq!(recent.len(), 1);
    assert_eq!(recent[0].url, url);
    let s = sec.signals_for("news.example");
    assert_eq!(s.requests_seen, 2);
    assert_eq!(s.requests_blocked, 1);
}

#[test]
fn weak_cookies_are_spotted() {
    assert!(!cookie_is_insecure("id=1; Secure; HttpOnly"));
    assert!(cookie_is_insecure("id=1; Secure"));
    assert!(cookie_is_insecure(""));
    assert!(any_insecure_cookie(&vec!["a=1; secure; httponly".into(), "b=2".into()]));
    assert!(!any_insecure_cookie(&vec![]));
}

#[test]
fn content_length_parses_like_std() {
    assert_eq!(parse_usize("1024"), Some(1024));
    assert_eq!(parse_usize("+7"), Some(7));
    assert_eq!(parse_usize(""), None);
    assert_eq!(parse_usize("+"), None);
    assert_eq!(parse_usize("-1"), None);
    assert_eq!(parse_usize(" 5"), None);
    assert_eq!(parse_usize("99999999999999999999999"), None);
    assert_eq!(parse_usize("18446744073709551615"), "18446744073709551615".parse::<usize>().ok());
}

#[test]
fn only_small_html_bodies_are_analyzed() {
    assert!(should_analyze_body(Some("Text/HTML; charset=utf-8"), Some("100")));
    assert!(!should_analyze_body(Some("text/html"), None));
    assert!(!should_analyze_body(Some("text/html"), Some("600000")));
    assert!(!should_analyze_body(Some("application/json"), Some("10")));
    assert!(!should_analyze_body(None, Some("10")));
    assert!(should_analyze_body(Some("text/html"), Some("524288")));
}

#[test]
fn page_body_findings_are_recorded() {
    let mut sec = SecurityStore::default();
    let html = r#"<html><body><form><input type="password"></form></body></html>"#;
    record_page_body(&mut sec, "http://Site.Example/login", html, 5);
    assert!(sec.signals_for("site.example").body.password_on_insecure_origin);
    let mut quiet = SecurityStore::default();
    record_page_body(&mut quiet, "https://site.example/", "<p>hi</p>", 5);
    assert_eq!(quiet.len(), 0);
}

#[test]
fn block_log_lists_newest_kept_blocks_first() {
    let mut log = BlockLog::default();
    for i in 0..(BLOCK_LOG_CAPACITY + 7) {
        log.push(format!("https://t.example/{i}"));
    }
    let r = log.recent(usize::MAX);
    assert_eq!(r.len(), BLOCK_LOG_CAPACITY);
    for (i, e) in r.iter().enumerate() {
        assert_eq!(e.url, format!("https://t.example/{}", BLOCK_LOG_CAPACITY + 6 - i));
    }
    assert_eq!(log.recent(2).len(), 2);
}

#[test]
fn filter_set_matches_like_its_patterns() {
    let f = filters();
    assert!(f[0].is_match("https://www.google-analytics.com/collect?v=1"));
    assert!(!f[0].is_match("https://example.com/index.html"));
    assert_eq!(f[0].len(), default_filter_patterns().len());
    assert!(FilterSet::build(vec!["(unclosed".to_string()], SIZE_LIMIT).is_err());
}
