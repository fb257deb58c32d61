use blueflame::filter_parser::{line_to_pattern, parse_document};
use regex::Regex;

fn compile(line: &str) -> Regex {
    let pat = line_to_pattern(line).unwrap_or_else(|| panic!("line did not parse: {line}"));
    Regex::new(&pat).unwrap_or_else(|e| panic!("regex failed for {line}: {e}\npat={pat}"))
}

#[test]
fn domain_anchor_blocks_host_and_subdomains() {
    let r = compile("||doubleclick.net^");
    assert!(r.is_match("https://doubleclick.net/dc.js"));
    assert!(r.is_match("https://stats.doubleclick.net/track"));
    assert!(r.is_match("http://ad.doubleclick.net/"));
    assert!(!r.is_match("https://example.com/"));
}

#[test]
fn domain_with_path_prefix() {
    let r = compile("||facebook.com/tr");
    assert!(r.is_match("https://www.facebook.com/tr?id=123"));
    assert!(r.is_match("https://connect.facebook.com/tr/"));
    assert!(!r.is_match("https://www.facebook.com/profile"));
}

#[test]
fn bare_substring_match() {
    let r = compile("/banner_");
    assert!(r.is_match("https://cdn.example.com/img/banner_728.png"));
    assert!(!r.is_match("https://cdn.example.com/img/hero.png"));
}

#[test]
fn rules_with_options_are_skipped() {
    assert!(line_to_pattern("||hotjar.com^$third-party").is_none());
    assert!(line_to_pattern("||ads.example/*$domain=foo.com").is_none());
    assert!(line_to_pattern("/track?$script,xhr").is_none());
}

#[test]
fn exception_rules_are_skipped() {
    assert!(line_to_pattern("@@||example.com^").is_none());
}

#[test]
fn cosmetic_rules_are_skipped() {
    assert!(line_to_pattern("example.com##.ad-banner").is_none());
    assert!(line_to_pattern("example.com#@#.ad-banner").is_none());
}

#[test]
fn comments_and_metadata_are_skipped() {
    assert!(line_to_pattern("! EasyList").is_none());
    assert!(line_to_pattern("[Adblock Plus 2.0]").is_none());
    assert!(line_to_pattern("").is_none());
    assert!(line_to_pattern("   ").is_none());
}

#[test]
fn wildcards_translate_to_dotstar() {
    let r = compile("||tracker.net/pixel*.gif");
    assert!(r.is_match("https://tracker.net/pixel1.gif"));
    assert!(r.is_match("https://tracker.net/pixel_12345.gif"));
}

#[test]
fn parse_document_skips_noise() {
    let input = "\
! Comment\n\
[Adblock Plus 2.0]\n\
||doubleclick.net^\n\
\n\
||google-analytics.com^\n\
@@||notskipped.com^\n\
example.com##.ad\n\
";
    let patterns = parse_document(input);
    assert_eq!(patterns.len(), 2);
}

#[test]
fn bare_domain_and_anchors() {
    assert_eq!(line_to_pattern("||ads.example").unwrap(), r"^https?://([^/]+\.)?ads\.example(?:[/:?&#]|$)");
    assert_eq!(line_to_pattern("|http://x.example").unwrap(), r"^http://x\.example");
    assert_eq!(line_to_pattern("/pixel.gif|").unwrap(), r"/pixel\.gif$");
    assert_eq!(line_to_pattern(r"/a\$b").unwrap(), r"/a\\\$b");
}

#[test]
fn domain_anchor_pattern_text() {
    assert_eq!(
        line_to_pattern("||doubleclick.net^").unwrap(),
        r"^https?://([^/]+\.)?doubleclick\.net[/:?&#]"
    );
}
