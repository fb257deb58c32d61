use blueflame::list_loader::{cache_path, compile_patterns, default_lists};
use blueflame::proxy::default_filter_patterns;
use blueflame::list_loader::FilterSet;

fn any_match(sets: &[FilterSet], url: &str) -> bool {
    sets.iter().any(|s| s.is_match(url))
}

#[test]
fn compile_merges_builtin_and_docs() {
    let builtin: &[&str] = &[r"^https?://[^/]*hardcoded\.example/"];
    let doc = "||added.example^\n||skipped-cosmetic##.foo\n".to_string();
    let sets = compile_patterns(builtin, &[doc]).unwrap();
    assert!(any_match(&sets, "https://hardcoded.example/x"));
    assert!(any_match(&sets, "https://added.example/tracker"));
    assert!(!any_match(&sets, "https://unrelated.example/"));
}

#[test]
fn cache_path_is_stable() {
    let a = cache_path("/tmp/blueflame", "https://easylist.to/easylist/easyprivacy.txt");
    let b = cache_path("/tmp/blueflame", "https://easylist.to/easylist/easyprivacy.txt");
    assert_eq!(a, b);
}

#[test]
fn cache_path_replaces_non_alphanumerics() {
    let p = cache_path("/tmp/blueflame", "https://a.b/c");
    assert!(p.ends_with("https___a_b_c.txt"));
    assert!(p.starts_with("/tmp/blueflame"));
}

#[test]
fn invalid_patterns_are_dropped_and_empty_builtin_makes_no_set() {
    let sets = compile_patterns(&["(unclosed"], &[]).unwrap();
    assert!(sets.is_empty());
    let sets = compile_patterns(&default_filter_patterns(), &["! only a comment\n".to_string()]).unwrap();
    assert_eq!(sets.len(), 1);
    assert_eq!(sets[0].len(), default_filter_patterns().len());
}

#[test]
fn large_lists_are_chunked() {
    let doc: String = (0..12_000).map(|i| format!("||host{i}.example^\n")).collect();
    let sets = compile_patterns(&[], &[doc]).unwrap();
    assert_eq!(sets.len(), 3);
    assert_eq!(sets[0].len(), 5000);
    assert_eq!(sets[2].len(), 2000);
    assert!(any_match(&sets, "https://host11999.example/"));
}

#[test]
fn default_lists_are_easyprivacy_and_easylist() {
    let l = default_lists();
    assert_eq!(l.len(), 2);
    assert_eq!(l[0].name, "EasyPrivacy");
    assert_eq!(l[1].url, "https://easylist.to/easylist/easylist.txt");
}
