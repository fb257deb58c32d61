use blueflame::browser::{menu_popup_url, menu_toggles_off, popup_base, trust_panel_url};
use blueflame::browser::find_in_page_script;
use blueflame::browser::{
    host_title, looks_like_search_query, navigation_title, opened_tab, resolve_url, tab_label, TabInfo,
    TabsState,
};
use blueflame::search::SearchEngine;

#[test]
fn full_url_passes_through() {
    assert_eq!(
        resolve_url("https://example.com", SearchEngine::DuckDuckGo).unwrap(),
        "https://example.com"
    );
}

#[test]
fn bare_host_gets_https() {
    assert_eq!(
        resolve_url("github.com", SearchEngine::DuckDuckGo).unwrap(),
        "https://github.com"
    );
}

#[test]
fn search_routes_to_chosen_engine() {
    let ddg = resolve_url("best browser", SearchEngine::DuckDuckGo).unwrap();
    assert!(ddg.starts_with("https://duckduckgo.com/"));
    let brave = resolve_url("best browser", SearchEngine::Brave).unwrap();
    assert!(brave.starts_with("https://search.brave.com/"));
}

#[test]
fn empty_errors() {
    assert!(resolve_url("", SearchEngine::DuckDuckGo).is_err());
    assert!(resolve_url("   ", SearchEngine::DuckDuckGo).is_err());
}

#[test]
fn tab_label_is_stable_and_unique() {
    assert_eq!(tab_label(1), "browse-1");
    assert_ne!(tab_label(1), tab_label(2));
}

#[test]
fn host_title_strips_www() {
    assert_eq!(host_title("https://www.github.com/w1ck3ds0d4"), "github.com");
}

#[test]
fn issue_id_is_monotonic() {
    let mut s = TabsState::default();
    assert_eq!(s.issue_id(), 1);
    assert_eq!(s.issue_id(), 2);
    assert_eq!(s.issue_id(), 3);
}

#[test]
fn host_title_of_internal_pages() {
    assert_eq!(host_title("data:text/html,hi"), "New tab");
    assert_eq!(host_title("about:blank"), "about:blank");
    assert_eq!(host_title("https://www.www.example.com/"), "example.com");
    assert_eq!(host_title("https://example.org/x"), "example.org");
    assert_eq!(host_title("not a url"), "not a url");
}

#[test]
fn search_query_heuristic() {
    assert!(looks_like_search_query("rust async"));
    assert!(looks_like_search_query("rust"));
    assert!(!looks_like_search_query("example.com"));
    assert!(!looks_like_search_query("https://example.com"));
    assert!(!looks_like_search_query("   "));
}

#[test]
fn url_bar_route_for_bare_words_and_spaced_hosts() {
    let u = resolve_url("rust", SearchEngine::DuckDuckGo).unwrap();
    assert!(u.starts_with("https://duckduckgo.com/"));
    assert!(u.contains("rust"));
}

fn tab(id: u64, url: &str) -> TabInfo {
    TabInfo { id, url: url.to_string(), title: String::new(), loading: false, private: false }
}

#[test]
fn tabs_open_switch_and_close() {
    let mut s = TabsState::default();
    let a = s.issue_id();
    s.open_tab(tab(a, "https://a.example"));
    let b = s.issue_id();
    s.open_tab(tab(b, "https://b.example"));
    assert_eq!(s.view().active_id, Some(b));
    assert!(s.switch_to(a));
    assert_eq!(s.view().active_id, Some(a));
    assert!(!s.switch_to(99));
    assert_eq!(s.view().active_id, Some(a));
    s.close(a);
    let v = s.view();
    assert_eq!(v.tabs.len(), 1);
    assert_eq!(v.active_id, Some(b));
    s.close(b);
    assert_eq!(s.view().active_id, None);
    assert_eq!(s.id_at(0), None);
}

#[test]
fn navigation_updates_only_real_pages() {
    let mut s = TabsState::default();
    let a = s.issue_id();
    s.open_tab(tab(a, "https://a.example"));
    s.navigated(a, "data:text/html,x", "ignored".to_string());
    assert_eq!(s.view().tabs[0].url, "https://a.example");
    s.navigated(a, "https://b.example/", "b.example".to_string());
    let v = s.view();
    assert_eq!(v.tabs[0].url, "https://b.example/");
    assert_eq!(v.tabs[0].title, "b.example");
    assert!(v.tabs[0].loading);
    s.page_loaded(a);
    assert!(!s.view().tabs[0].loading);
}

#[test]
fn retarget_reports_privacy() {
    let mut s = TabsState::default();
    let a = s.issue_id();
    s.open_tab(TabInfo { id: a, url: "x".into(), title: "x".into(), loading: false, private: true });
    assert!(s.retarget(a, "https://c.example", "c.example".to_string()));
    assert_eq!(s.view().tabs[0].url, "https://c.example");
    assert!(!s.retarget(42, "https://d.example", "d".to_string()));
}

#[test]
fn opened_tab_loads_unless_data_page() {
    assert!(opened_tab(1, "https://a.example".into(), "a".into(), false).loading);
    assert!(!opened_tab(2, "data:text/html,x".into(), "New tab".into(), true).loading);
}

#[test]
fn navigation_title_for_results_page() {
    assert_eq!(navigation_title("data:text/html;base64,AA", "  rust  ", true), "Search: rust");
    assert_eq!(navigation_title("https://www.rust-lang.org/", "rust-lang.org", true), "rust-lang.org");
    assert_eq!(navigation_title("data:text/html;base64,AA", "rust", false), "New tab");
}

#[test]
fn find_script_escapes_quotes_and_backslashes() {
    assert_eq!(
        find_in_page_script(r"it's a\b", true),
        r"window.find && window.find('it\'s a\\b', false, false, true, false, true, false)"
    );
    assert!(find_in_page_script("x", false).contains("'x', false, true,"));
}

#[test]
fn popup_urls_carry_their_query() {
    assert_eq!(popup_base(true), "http://localhost:1420");
    assert_eq!(
        trust_panel_url(false, "https://a.example/x?y=1", "7").unwrap(),
        "http://tauri.localhost/?panel=trust&url=https%3A%2F%2Fa.example%2Fx%3Fy%3D1&tab=7"
    );
    assert_eq!(
        menu_popup_url(true, "main", None, Some(true), Some(false)).unwrap(),
        "http://localhost:1420/?panel=menu&kind=main&browsing=1&bookmarked=0"
    );
    assert!(menu_toggles_off(Some("http://localhost:1420/?panel=menu&kind=main"), "main"));
    assert!(!menu_toggles_off(Some("http://localhost:1420/?panel=menu&kind=tabs"), "main"));
    assert!(!menu_toggles_off(None, "main"));
}

#[test]
fn rebuild_plan_keeps_order_privacy_and_active_position() {
    let mut s = TabsState::default();
    let a = s.issue_id();
    s.open_tab(TabInfo { id: a, url: "https://a.example".into(), title: String::new(), loading: false, private: false });
    let b = s.issue_id();
    s.open_tab(TabInfo { id: b, url: "https://b.example".into(), title: String::new(), loading: false, private: true });
    assert!(s.switch_to(a));
    let (plan, active) = s.rebuild_plan();
    assert_eq!(plan, vec![("https://a.example".to_string(), false), ("https://b.example".to_string(), true)]);
    assert_eq!(active, Some(0));
    s.clear_tabs();
    assert!(s.view().tabs.is_empty());
    assert_eq!(s.view().active_id, None);
    assert_eq!(s.issue_id(), b + 1);
}
