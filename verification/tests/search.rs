use blueflame::search::{
    engine_setting, flag_setting, is_restorable_key, url_encode, SearchEngine, SearchSettings,
};

#[test]
fn round_trip_engine_id() {
    for engine in SearchEngine::all() {
        assert_eq!(SearchEngine::from_id(engine.id()), Some(*engine));
    }
}

#[test]
fn unknown_id_is_none() {
    assert!(SearchEngine::from_id("lycos").is_none());
}

#[test]
fn search_urls_include_query() {
    let u = SearchEngine::Brave.search_url("rust async");
    assert!(u.starts_with("https://search.brave.com/"));
    assert!(u.contains("rust+async"));
}

#[test]
fn settings_persistence() {
    let mut s = SearchSettings::new();
    assert_eq!(s.get_engine(), SearchEngine::DuckDuckGo);
    s.set_engine(SearchEngine::Brave);
    assert_eq!(s.get_engine(), SearchEngine::Brave);
}

#[test]
fn metasearch_toggle_persists() {
    let mut s = SearchSettings::new();
    assert!(!s.get_metasearch());
    s.set_metasearch(true);
    assert!(s.get_metasearch());
    s.set_metasearch(false);
    assert!(!s.get_metasearch());
}

#[test]
fn settings_rows_round_trip() {
    let mut s = SearchSettings::new();
    s.set_engine(SearchEngine::Brave);
    s.set_tor_proxy_addr("127.0.0.1:9150");
    let rows = s.dump_all();
    let t = SearchSettings::from_rows(&rows);
    assert_eq!(t.get_engine(), SearchEngine::Brave);
    assert_eq!(t.get_tor_proxy_addr(), "127.0.0.1:9150");
}

#[test]
fn restore_only_takes_known_keys() {
    let mut s = SearchSettings::new();
    let n = s.restore_all(&vec![
        ("search_engine".to_string(), "brave".to_string()),
        ("evil_key".to_string(), "x".to_string()),
    ]);
    assert_eq!(n, 1);
    assert_eq!(s.get_engine(), SearchEngine::Brave);
    assert!(is_restorable_key("search_engine"));
    assert!(!is_restorable_key("evil_key"));
}

#[test]
fn stored_values_fall_back_to_defaults() {
    assert_eq!(engine_setting(None), SearchEngine::DuckDuckGo);
    assert_eq!(engine_setting(Some("nonsense")), SearchEngine::DuckDuckGo);
    assert!(flag_setting(Some("1")));
    assert!(!flag_setting(Some("0")));
    assert!(!flag_setting(None));
}

#[test]
fn url_encode_is_form_encoding() {
    assert_eq!(url_encode("a b&c"), "a+b%26c");
    assert_eq!(url_encode("ä"), "%C3%A4");
}

#[test]
fn dump_lists_every_row_once_in_key_order() {
    let mut s = SearchSettings::new();
    s.set_engine(SearchEngine::Brave);
    assert_eq!(s.dump_all(), vec![("search_engine".to_string(), "brave".to_string())]);
    s.set_tor_proxy_addr("127.0.0.1:9150");
    s.set_engine(SearchEngine::Kagi);
    let rows = s.dump_all();
    assert_eq!(rows.len(), 2);
    assert_eq!(rows[0].0, "search_engine");
    assert_eq!(rows[0].1, "kagi");
    assert!(rows[0].0 < rows[1].0);
}
