use blueflame::body_analysis::BodyFindings;
use blueflame::security::{SecurityStore, PAGE_CAP};

#[test]
fn no_referer_is_a_noop() {
    let mut s = SecurityStore::default();
    s.record_request("https://tracker.example/x", None, false);
    assert!(s.signals_for("tracker.example").requests_seen == 0);
}

#[test]
fn request_attributes_to_page_host() {
    let mut s = SecurityStore::default();
    s.record_request("https://tracker.example/px.gif", Some("https://news.example/article"), false);
    let sig = s.signals_for("news.example");
    assert_eq!(sig.requests_seen, 1);
    assert!(sig.third_party_hosts.contains(&"tracker.example".to_string()));
    assert!(!sig.mixed_content);
}

#[test]
fn mixed_content_is_flagged() {
    let mut s = SecurityStore::default();
    s.record_request("http://img.example/logo.png", Some("https://site.example/"), false);
    assert!(s.signals_for("site.example").mixed_content);
}

#[test]
fn blocked_count_tracked() {
    let mut s = SecurityStore::default();
    s.record_request("https://ads.example/px", Some("https://site.example/"), true);
    assert_eq!(s.signals_for("site.example").requests_blocked, 1);
}

#[test]
fn same_host_request_is_not_third_party() {
    let mut s = SecurityStore::default();
    s.record_request("https://site.example/js/app.js", Some("https://site.example/"), false);
    assert!(s.signals_for("site.example").third_party_hosts.is_empty());
}

#[test]
fn non_html_response_is_ignored() {
    let mut s = SecurityStore::default();
    s.record_response(
        "https://site.example/logo.png",
        Some("image/png"),
        false,
        false,
        false,
        false,
        false,
        false,
        false,
    );
    assert!(!s.signals_for("site.example").headers.seen);
}

#[test]
fn html_response_records_headers() {
    let mut s = SecurityStore::default();
    s.record_response(
        "https://site.example/",
        Some("text/html; charset=utf-8"),
        true,
        true,
        true,
        true,
        true,
        true,
        false,
    );
    let h = s.signals_for("site.example").headers;
    assert!(h.seen);
    assert!(h.csp && h.hsts && h.xfo && h.xcto && h.referrer_policy && h.permissions_policy);
    assert!(!h.insecure_cookie);
}

#[test]
fn third_party_hosts_are_listed_once() {
    let mut s = SecurityStore::default();
    s.record_request_at("https://cdn.example/a.js", Some("https://site.example/"), false, 1);
    s.record_request_at("https://cdn.example/b.js", Some("https://site.example/"), false, 2);
    let sig = s.signals_for("site.example");
    assert_eq!(sig.third_party_hosts, vec!["cdn.example".to_string()]);
    assert_eq!(sig.requests_seen, 2);
    assert_eq!(sig.last_seen_at, 2);
}

#[test]
fn body_findings_accumulate() {
    let mut s = SecurityStore::default();
    s.record_body_at(
        "Site.Example",
        BodyFindings {
            login_form_cross_origin: None,
            password_on_insecure_origin: true,
            outdated_libraries: vec!["jQuery 1.4 (EOL, known XSS issues)".into()],
        },
        1,
    );
    s.record_body_at(
        "site.example",
        BodyFindings {
            login_form_cross_origin: Some("evil.example".into()),
            password_on_insecure_origin: false,
            outdated_libraries: vec!["jQuery 1.4 (EOL, known XSS issues)".into()],
        },
        2,
    );
    let b = s.signals_for("site.example").body;
    assert!(b.seen);
    assert!(b.password_on_insecure_origin);
    assert_eq!(b.login_form_cross_origin_host.as_deref(), Some("evil.example"));
    assert_eq!(b.outdated_libraries.len(), 1);
}

#[test]
fn store_is_bounded_and_evicts_oldest() {
    let mut s = SecurityStore::default();
    for i in 0..(PAGE_CAP as u64 + 3) {
        let referer = format!("https://p{i}.example/");
        s.record_request_at("https://x.example/", Some(&referer), false, i + 1);
    }
    assert_eq!(s.len(), PAGE_CAP);
    assert_eq!(s.signals_for("p0.example").requests_seen, 0);
    assert_eq!(s.signals_for(&format!("p{}.example", PAGE_CAP + 2)).requests_seen, 1);
    s.clear();
    assert_eq!(s.len(), 0);
}
