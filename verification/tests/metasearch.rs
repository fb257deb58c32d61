use blueflame::brand::logo_data_url;
use blueflame::metasearch::{
    clean_ddg_url, escape_html, parse_ddg_html, result_of_node, results_from_nodes, results_data_url, results_page, search_endpoint, SearchResult,
};

const FIXTURE: &str = r##"
<html><body>
<div class="result">
  <a class="result__a" href="//duckduckgo.com/l/?uddg=https%3A%2F%2Fexample.com%2Fpage&rut=1">Example Page</a>
  <a class="result__snippet" href="#">This is an example snippet.</a>
</div>
<div class="result">
  <a class="result__a" href="//duckduckgo.com/l/?uddg=https%3A%2F%2Ffoo.test%2F">Foo Test</a>
  <div class="result__snippet">Snippet for foo.</div>
</div>
<div class="result">
  <a class="result__a" href="">Empty URL</a>
  <div class="result__snippet">should be skipped</div>
</div>
</body></html>
"##;

#[test]
fn parses_ddg_html_fixture() {
    let r = parse_ddg_html(FIXTURE, 10);
    assert_eq!(r.len(), 2);
    assert_eq!(r[0].title, "Example Page");
    assert_eq!(r[0].url, "https://example.com/page");
    assert!(r[0].snippet.contains("example snippet"));
    assert_eq!(r[1].url, "https://foo.test/");
}

#[test]
fn parse_respects_max_results() {
    let r = parse_ddg_html(FIXTURE, 1);
    assert_eq!(r.len(), 1);
}

#[test]
fn clean_ddg_url_unwraps_redirect() {
    let out = clean_ddg_url("//duckduckgo.com/l/?uddg=https%3A%2F%2Fexample.com%2F&rut=1");
    assert_eq!(out, "https://example.com/");
}

#[test]
fn escape_html_escapes_specials() {
    assert_eq!(escape_html(r#"<a href="x">&"#), "&lt;a href=&quot;x&quot;&gt;&amp;");
}

fn hello() -> Vec<SearchResult> {
    vec![SearchResult {
        title: "Hello".into(),
        url: "https://example.com".into(),
        snippet: "Snip".into(),
        source: "DuckDuckGo".into(),
    }]
}

#[test]
fn results_page_renders_query_and_results() {
    let r = hello();
    let page = results_page("what is rust", &r, "");
    assert!(page.contains("what is rust"));
    assert!(page.contains("https://example.com"));
    assert!(page.contains("Hello"));
}

#[test]
fn results_page_escapes_query_and_reports_empty() {
    let page = results_page("<b>", &[], "");
    assert!(page.contains("&lt;b&gt;"));
    assert!(!page.contains("<b>"));
    assert!(page.contains("empty"));
}

#[test]
fn results_data_url_is_base64_html() {
    let u = results_data_url("q", &hello(), &logo_data_url(&[]));
    assert!(u.starts_with("data:text/html;charset=utf-8;base64,"));
}

#[test]
fn clean_ddg_url_keeps_plain_links() {
    assert_eq!(clean_ddg_url("https://example.com/x"), "https://example.com/x");
}

#[test]
fn search_endpoint_encodes_query() {
    let e = search_endpoint("rust async");
    assert!(e.starts_with("https://html.duckduckgo.com/html/?q="));
    assert!(e.contains("rust"));
    assert!(!e.contains(' '));
}

#[test]
fn logo_data_url_prefixes_base64() {
    assert_eq!(logo_data_url(&[0, 1, 2]), "data:image/png;base64,AAEC");
    assert_eq!(logo_data_url(b"Man"), "data:image/png;base64,TWFu");
}

#[test]
fn results_from_parsed_nodes() {
    let nodes = vec![
        (
            Some((
                "  First  ".to_string(),
                Some("//duckduckgo.com/l/?uddg=https%3A%2F%2Fone.example%2F&rut=1".to_string()),
            )),
            Some(" snip ".to_string()),
        ),
        (None, Some("no title".to_string())),
        (Some(("   ".to_string(), Some("https://two.example/".to_string()))), None),
        (Some(("Third".to_string(), Some("https://three.example/".to_string()))), None),
    ];
    let r = results_from_nodes(&nodes, 10);
    assert_eq!(r.len(), 2);
    assert_eq!(r[0].title, "First");
    assert_eq!(r[0].url, "https://one.example/");
    assert_eq!(r[0].snippet, "snip");
    assert_eq!(r[0].source, "DuckDuckGo");
    assert_eq!(r[1].title, "Third");
    assert_eq!(r[1].snippet, "");
    assert_eq!(results_from_nodes(&nodes, 1).len(), 1);
    assert!(result_of_node(&nodes[1]).is_none());
    assert!(result_of_node(&nodes[2]).is_none());
    assert_eq!(result_of_node(&nodes[3]).unwrap().url, "https://three.example/");
}
