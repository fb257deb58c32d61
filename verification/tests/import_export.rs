use blueflame::import_export::{BookmarkExport, ImportResult};
use blueflame::import_export::{
    check_backup_version, parse_i64, parse_netscape_bookmarks, replace_all, strip_tags, BACKUP_VERSION,
};

#[test]
fn parses_chrome_export() {
    let html = r#"
<!DOCTYPE NETSCAPE-Bookmark-file-1>
<DL><p>
    <DT><A HREF="https://rust-lang.org/" ADD_DATE="1700000000">Rust</A>
    <DT><A HREF="https://docs.rs/" ADD_DATE="1700000100">docs.rs</A>
</DL>"#;
    let got = parse_netscape_bookmarks(html);
    assert_eq!(got.len(), 2);
    assert_eq!(got[0].0, "https://rust-lang.org/");
    assert_eq!(got[0].1, "Rust");
    assert_eq!(got[0].2, 1700000000);
}

#[test]
fn skips_folder_placeholders_and_non_http() {
    let html = r#"
<DT><H3>My Folder</H3>
<DT><A HREF="place:type=6">Folder view</A>
<DT><A HREF="">empty</A>
<DT><A HREF="https://ok.example">ok</A>
"#;
    let got = parse_netscape_bookmarks(html);
    assert_eq!(got.len(), 1);
    assert_eq!(got[0].0, "https://ok.example");
}

#[test]
fn decodes_common_entities_and_nested_tags() {
    let html = r#"<DT><A HREF="https://a.example">AT&amp;T <b>home</b></A>"#;
    let got = parse_netscape_bookmarks(html);
    assert_eq!(got[0].1, "AT&T home");
}

#[test]
fn missing_add_date_yields_zero() {
    let html = r#"<DT><A HREF="https://a.example">x</A>"#;
    let got = parse_netscape_bookmarks(html);
    assert_eq!(got[0].2, 0);
}

#[test]
fn backup_version_is_checked() {
    assert!(check_backup_version(BACKUP_VERSION).is_ok());
    assert!(check_backup_version(BACKUP_VERSION + 1).is_err());
}

#[test]
fn i64_parses_like_std() {
    assert_eq!(parse_i64("1700000000"), Some(1700000000));
    assert_eq!(parse_i64("-5"), Some(-5));
    assert_eq!(parse_i64("+5"), Some(5));
    assert_eq!(parse_i64("x"), None);
    assert_eq!(parse_i64(""), None);
    assert_eq!(parse_i64("-9223372036854775808"), Some(i64::MIN));
    assert_eq!(parse_i64("9223372036854775808"), None);
}

#[test]
fn replace_all_and_strip_tags() {
    assert_eq!(replace_all("a&amp;b&amp;c", "&amp;", "&"), "a&b&c");
    assert_eq!(replace_all("abc", "x", "y"), "abc");
    assert_eq!(strip_tags("<b>bold</b> text"), "bold text");
}

#[test]
fn import_counts_added_and_skipped_bookmarks() {
    let mut r = ImportResult::start(3);
    let empty = BookmarkExport { url: String::new(), title: "x".into(), created_at: 0 };
    let full = BookmarkExport { url: "https://a.example".into(), title: "a".into(), created_at: 0 };
    assert!(!ImportResult::offered(&empty));
    assert!(ImportResult::offered(&full));
    r.count(None);
    r.count(Some(true));
    r.count(Some(false));
    assert_eq!(r, ImportResult { settings_imported: 3, bookmarks_imported: 1, bookmarks_skipped: 2 });
}

#[test]
fn replace_all_with_empty_pattern_matches_str_replace() {
    assert_eq!(replace_all("abc", "", "-"), "abc".replace("", "-"));
    assert_eq!(replace_all("abc", "", "-"), "-a-b-c-");
    assert_eq!(replace_all("", "", "x"), "x");
    assert_eq!(replace_all("aaa", "aa", "b"), "aaa".replace("aa", "b"));
}
