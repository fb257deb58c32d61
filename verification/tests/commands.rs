use blueflame::commands::{
    blocks_for_host, check_tor_settings, count_blocks_on_host, engine_options, filter_list_entry,
    patterns_active, recent_blocks, recent_blocks_take, system_summary, trust_for_page_at, trust_history_request,
    trust_history_take,
};
use blueflame::list_loader::FilterList;
use blueflame::proxy::{BlockLog, BlockedEntry};
use blueflame::reputation::ReputationStore;
use blueflame::search::SearchEngine;
use blueflame::security::SecurityStore;
use blueflame::trust::evaluate_at;

#[test]
fn engine_picker_lists_every_engine() {
    let opts = engine_options();
    assert_eq!(opts.len(), SearchEngine::all().len());
    for (o, e) in opts.iter().zip(SearchEngine::all()) {
        assert_eq!(o.id, e.id());
        assert_eq!(o.name, e.display_name());
    }
}

#[test]
fn tor_settings_validation() {
    assert!(check_tor_settings(true, None, false, false).is_ok());
    assert_eq!(
        check_tor_settings(true, Some("invalid socket address syntax"), false, true).unwrap_err(),
        "proxy_addr must be host:port (e.g. 127.0.0.1:9050): invalid socket address syntax"
    );
    assert!(check_tor_settings(false, Some("bad"), false, true).is_ok());
    assert_eq!(
        check_tor_settings(false, None, true, false).unwrap_err(),
        "this build was compiled without built-in Tor support"
    );
}

#[test]
fn pattern_count_sums_sets() {
    assert_eq!(patterns_active(&[8, 5000, 12]), 5020);
    assert_eq!(patterns_active(&[]), 0);
}

#[test]
fn summary_uptime_and_newest_refresh() {
    let s = system_summary(Some(100), 160, 7, 2, &[Some(50), None, Some(90)]);
    assert_eq!(s.uptime_secs, 60);
    assert_eq!(s.patterns_active, 7);
    assert_eq!(s.lists_total, 2);
    assert_eq!(s.last_refresh_secs, Some(90));
    let t = system_summary(Some(200), 100, 0, 2, &[None, None]);
    assert_eq!(t.uptime_secs, 0);
    assert_eq!(t.last_refresh_secs, None);
    assert_eq!(system_summary(None, 100, 0, 0, &[]).uptime_secs, 0);
}

#[test]
fn filter_list_rows() {
    let row = filter_list_entry(FilterList { name: "EasyList".into(), url: "u".into() }, Some(5));
    assert!(row.cached);
    assert_eq!(row.cached_at, Some(5));
    let none = filter_list_entry(FilterList { name: "n".into(), url: "u".into() }, None);
    assert!(!none.cached);
}

#[test]
fn request_limits() {
    assert_eq!(trust_history_take(None), 48);
    assert_eq!(trust_history_take(Some(1)), 2);
    assert_eq!(trust_history_take(Some(10_000)), 500);
    assert_eq!(recent_blocks_take(None), 100);
    assert_eq!(recent_blocks_take(Some(7)), 7);
    assert_eq!(recent_blocks_take(Some(10_000)), 500);
}

#[test]
fn blocks_are_counted_per_host_and_subdomain() {
    let entries = vec![
        BlockedEntry { ts: 1, url: "https://ads.news.example/px".into() },
        BlockedEntry { ts: 2, url: "https://NEWS.example/t".into() },
        BlockedEntry { ts: 3, url: "https://othernews.example/t".into() },
        BlockedEntry { ts: 4, url: "not a url".into() },
    ];
    assert_eq!(count_blocks_on_host(&entries, "news.example"), 2);
    let mut log = BlockLog::default();
    log.push("https://a.site.example/x".into());
    log.push("https://elsewhere.example/x".into());
    assert_eq!(blocks_for_host(&log, "  Site.Example "), 1);
    assert_eq!(blocks_for_host(&log, "   "), 0);
}

#[test]
fn trust_for_page_uses_blocks_and_signals() {
    let mut log = BlockLog::default();
    log.push("https://tracker.site.example/px".into());
    let sec = SecurityStore::default();
    let rep = ReputationStore::with_bundled();
    let a = trust_for_page_at("https://Site.Example/", &log, &sec, &rep, 0);
    let b = evaluate_at("https://Site.Example/", 1, &Default::default(), &rep, 0);
    assert_eq!(a.score, b.score);
    assert_eq!(a.signals.len(), b.signals.len());
    let bad = trust_for_page_at("https://phishing.example.test/", &log, &sec, &rep, 0);
    assert_eq!(bad.score, 0);
}

#[test]
fn history_requests_need_a_host() {
    assert_eq!(trust_history_request("  ", None), None);
    assert_eq!(trust_history_request(" Site.Example ", Some(1)), Some(("site.example".to_string(), 2)));
}

#[test]
fn recent_blocks_are_newest_first_and_capped() {
    let mut log = BlockLog::default();
    log.push("https://a.example/1".into());
    log.push("https://a.example/2".into());
    let r = recent_blocks(&log, Some(1));
    assert_eq!(r.len(), 1);
    assert_eq!(r[0].url, "https://a.example/2");
    assert_eq!(recent_blocks(&log, None).len(), 2);
}
