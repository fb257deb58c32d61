//! Metasearch: DuckDuckGo's HTML endpoint parsed into results, rendered
//! as the browser's own results page.
//!
//! The network request is made by the shell; the library parses the
//! response and renders the page.

use vstd::prelude::*;
use vstd::string::StringSliceAdditionalSpecFns;
use vstd::utf8::encode_utf8;

use crate::b64::{base64, push_base64};
use crate::html::{html_escaped, push_escaped};
use crate::search::{form_encode, url_encode};
use crate::text::{
    chars_of, decimal, has_prefix, opt_view, owned, push_str, starts_with, str_eq, trim_lowercase,
    trimmed, u64_to_decimal, views,
};
use crate::urls::{parsed_query_pairs, url_query_pairs};

pub use crate::html::escape_html;

verus! {

/// Start of the results page, up to the title's query.
pub const PAGE_HEAD: &'static str = r#"<!doctype html>
<html lang="en"><head><meta charset="utf-8"><meta name="viewport" content="width=device-width,initial-scale=1">
<title>"#;

/// From the title to the logo's source.
pub const PAGE_TITLE_END: &'static str = r#" - blueflame search</title>
<link rel="preconnect" href="https://fonts.googleapis.com">
<link rel="preconnect" href="https://fonts.gstatic.com" crossorigin>
<link href="https://fonts.googleapis.com/css2?family=JetBrains+Mono:wght@400;500;700&display=swap" rel="stylesheet">
<style>
*{box-sizing:border-box;margin:0;padding:0}
body{
  font-family:'JetBrains Mono',ui-monospace,Consolas,monospace;
  background:#0a0a0a;color:#d9e3ef;
  padding:24px;max-width:800px;margin:0 auto;
  font-size: 14px;line-height:1.55;
}
.hdr{
  display:flex;align-items:baseline;gap:10px;
  margin-bottom:18px;padding-bottom:10px;
  border-bottom:1px solid #262626;
}
.hdr .logo{ height:22px; width:auto; display:block; transform:translateY(4px); -webkit-user-drag:none; user-select:none; }
.hdr h1{ font-size: 15px; font-weight:700; color:#d9e3ef; }
.hdr .q{
  color:#6b7a8e; font-size: 12px; margin-left:auto;
}
.hdr .q::before{ content:'q: '; color:#4a5363; }
ul{ list-style:none; }
.r{
  margin:0 0 2px; padding:8px 10px;
  background:transparent;
  border:1px solid #262626;
  transition:background 80ms ease, border-color 80ms ease;
}
.r:hover{ background:#141414; border-color:rgba(0,179,255,0.35); }
.r-t{
  color:#5de0ff; font-size: 14px;
  text-decoration:none; font-weight:500;
}
.r-t:hover{ text-decoration:underline; }
.r-u{
  color:#4a5363; font-size: 11px;
  margin:2px 0 4px; word-break:break-all;
}
.r-u::before{ content:'> '; color:#6b7a8e; }
.r-s{ color:#d9e3ef; font-size: 13px; }
.src{
  color:#4a5363; font-size: 12px;
  margin-top:18px; text-align:left;
}
.src::before{ content:'// '; color:#00b3ff; }
.empty{
  color:#6b7a8e; font-size: 12px;
  padding:28px 0; text-align:left;
}
.empty::before{ content:'// '; color:#00b3ff; }
</style></head><body>
<div class="hdr">
  <img class="logo" src=""#;

/// From the logo to the header's query.
pub const PAGE_QUERY_OPEN: &'static str = r#"" alt="" aria-hidden="true">
  <h1>blueflame / search</h1>
  <span class="q">"#;

/// From the header's query to the result list.
pub const PAGE_LIST_OPEN: &'static str = r#"</span>
</div>
<ul>"#;

/// End of the result list.
pub const PAGE_LIST_CLOSE: &'static str = r#"</ul>
"#;

/// End of the page.
pub const PAGE_END: &'static str = r#"
</body></html>"#;

/// Start of a result, up to its link target.
pub const ITEM_OPEN: &'static str = r#"<li class="r">
  <a class="r-t" href=""#;

/// Between link target and title.
pub const ITEM_TITLE: &'static str = r#"" rel="noopener">"#;

/// Between title and shown URL.
pub const ITEM_URL: &'static str = r#"</a>
  <div class="r-u">"#;

/// Between shown URL and snippet.
pub const ITEM_SNIPPET: &'static str = r#"</div>
  <p class="r-s">"#;

/// End of a result.
pub const ITEM_CLOSE: &'static str = r#"</p>
</li>"#;

/// Shown when there are no results.
pub const NO_RESULTS: &'static str = r#"<li class="empty">NO RESULTS</li>"#;

/// One search result.
#[derive(Debug)]
pub struct SearchResult {
    pub title: String,
    pub url: String,
    pub snippet: String,
    pub source: String,
}

/// A result as plain values.
pub ghost struct ResultView {
    pub title: Seq<char>,
    pub url: Seq<char>,
    pub snippet: Seq<char>,
    pub source: Seq<char>,
}

impl View for SearchResult {
    type V = ResultView;

    open spec fn view(&self) -> ResultView {
        ResultView {
            title: self.title@,
            url: self.url@,
            snippet: self.snippet@,
            source: self.source@,
        }
    }
}

impl Clone for SearchResult {
    fn clone(&self) -> (r: Self)
        ensures
            r@ == self@,
    {
        SearchResult {
            title: owned(self.title.as_str()),
            url: owned(self.url.as_str()),
            snippet: owned(self.snippet.as_str()),
            source: owned(self.source.as_str()),
        }
    }
}

/// The views of a list of results.
pub open spec fn result_views(rs: Seq<SearchResult>) -> Seq<ResultView> {
    rs.map_values(|r: SearchResult| r@)
}

/// One result rendered as a list item.
pub open spec fn result_item(r: ResultView) -> Seq<char> {
    ITEM_OPEN@ + html_escaped(r.url) + ITEM_TITLE@ + html_escaped(r.title) + ITEM_URL@
        + html_escaped(r.url) + ITEM_SNIPPET@ + html_escaped(r.snippet) + ITEM_CLOSE@
}

/// Every result rendered, in order.
pub open spec fn result_items(rs: Seq<ResultView>) -> Seq<char>
    decreases rs.len(),
{
    if rs.len() == 0 {
        Seq::empty()
    } else {
        result_items(rs.drop_last()) + result_item(rs.last())
    }
}

/// The source line under a non-empty result list.
pub open spec fn footer(n: nat) -> Seq<char> {
    if n == 0 {
        Seq::empty()
    } else {
        "<div class=\"src\">"@ + decimal(n) + " results / source: duckduckgo html</div>"@
    }
}

/// The results page for `query`, with the logo at `logo_url`.
pub open spec fn results_html(query: Seq<char>, rs: Seq<ResultView>, logo_url: Seq<char>) -> Seq<char> {
    let q = html_escaped(query);
    let items = result_items(rs);
    PAGE_HEAD@ + q + PAGE_TITLE_END@ + logo_url + PAGE_QUERY_OPEN@ + q + PAGE_LIST_OPEN@ + (if items.len()
        == 0 {
        NO_RESULTS@
    } else {
        items
    }) + PAGE_LIST_CLOSE@ + footer(rs.len()) + PAGE_END@
}

/// Append one rendered result.
fn push_item(out: &mut String, r: &SearchResult)
    ensures
        final(out)@ == old(out)@ + result_item(r@),
{
    push_str(out, ITEM_OPEN);
    push_escaped(out, r.url.as_str());
    push_str(out, ITEM_TITLE);
    push_escaped(out, r.title.as_str());
    push_str(out, ITEM_URL);
    push_escaped(out, r.url.as_str());
    push_str(out, ITEM_SNIPPET);
    push_escaped(out, r.snippet.as_str());
    push_str(out, ITEM_CLOSE);
}

/// Every result rendered, in order.
fn render_items(results: &[SearchResult]) -> (r: String)
    ensures
        r@ == result_items(result_views(results@)),
{
    let ghost rv = result_views(results@);
    let mut out = String::new();
    let mut i: usize = 0;
    assert(rv.take(0) =~= Seq::<ResultView>::empty());
    while i < results.len()
        invariant
            0 <= i <= results@.len(),
            rv == result_views(results@),
            out@ == result_items(rv.take(i as int)),
        decreases results.len() - i,
    {
        push_item(&mut out, &results[i]);
        assert(rv.take(i + 1).drop_last() =~= rv.take(i as int));
        assert(rv.take(i + 1).last() == results@[i as int]@);
        i += 1;
    }
    assert(rv.take(rv.len() as int) =~= rv);
    out
}

/// The results page for `query` as self-contained HTML, with the brand
/// logo inlined from `logo_url`.
pub fn results_page(query: &str, results: &[SearchResult], logo_url: &str) -> (r: String)
    ensures
        r@ == results_html(query@, result_views(results@), logo_url@),
{
    let items = render_items(results);
    let mut out = owned(PAGE_HEAD);
    push_escaped(&mut out, query);
    push_str(&mut out, PAGE_TITLE_END);
    push_str(&mut out, logo_url);
    push_str(&mut out, PAGE_QUERY_OPEN);
    push_escaped(&mut out, query);
    push_str(&mut out, PAGE_LIST_OPEN);
    if items.as_str().is_empty() {
        push_str(&mut out, NO_RESULTS);
    } else {
        push_str(&mut out, items.as_str());
    }
    push_str(&mut out, PAGE_LIST_CLOSE);
    if results.len() > 0 {
        push_str(&mut out, "<div class=\"src\">");
        let n = u64_to_decimal(results.len() as u64);
        push_str(&mut out, n.as_str());
        push_str(&mut out, " results / source: duckduckgo html</div>");
    }
    push_str(&mut out, PAGE_END);
    proof {
        assert(result_views(results@).len() == results@.len());
    }
    out
}

/// A `data:` URL of the results page.
pub open spec fn html_data_url(html: Seq<u8>) -> Seq<char> {
    "data:text/html;charset=utf-8;base64,"@ + base64(html)
}

/// The results page as a `data:` URL the browse webview can open.
pub fn results_data_url(query: &str, results: &[SearchResult], logo_url: &str) -> (r: String)
    ensures
        r@ == html_data_url(encode_utf8(results_html(query@, result_views(results@), logo_url@))),
{
    let page = results_page(query, results, logo_url);
    let mut out = owned("data:text/html;charset=utf-8;base64,");
    push_base64(&mut out, page.as_str().as_bytes());
    out
}

/// The DuckDuckGo HTML endpoint for `query`.
pub open spec fn ddg_endpoint(query: Seq<u8>) -> Seq<char> {
    "https://html.duckduckgo.com/html/?q="@ + form_encode(query)
}

/// The DuckDuckGo HTML endpoint for `query`, form-encoded.
pub fn search_endpoint(query: &str) -> (r: String)
    ensures
        r@ == ddg_endpoint(query.spec_bytes()),
{
    let mut out = owned("https://html.duckduckgo.com/html/?q=");
    let q = url_encode(query);
    push_str(&mut out, q.as_str());
    out
}

/// The value of the first pair keyed `key`.
pub open spec fn first_value(pairs: Seq<(Seq<char>, Seq<char>)>, key: Seq<char>) -> Option<Seq<char>>
    decreases pairs.len(),
{
    if pairs.len() == 0 {
        None
    } else if pairs[0].0 == key {
        Some(pairs[0].1)
    } else {
        first_value(pairs.drop_first(), key)
    }
}

/// A result link with a scheme-relative `//` given `https:`.
pub open spec fn absolute_link(raw: Seq<char>) -> Seq<char> {
    if has_prefix(raw, "//"@) {
        "https://"@ + raw.skip(2)
    } else {
        raw
    }
}

/// A result link with DuckDuckGo's `uddg=` redirect unwrapped.
pub open spec fn cleaned_link(raw: Seq<char>) -> Seq<char> {
    let s = absolute_link(raw);
    match parsed_query_pairs(s) {
        Some(pairs) => match first_value(pairs, "uddg"@) {
            Some(v) => v,
            None => s,
        },
        None => s,
    }
}

/// The value of the first pair keyed `key`.
pub fn find_value(pairs: &Vec<(String, String)>, key: &str) -> (r: Option<String>)
    ensures
        opt_view(r) == first_value(crate::urls::pair_views(pairs@), key@),
{
    let ghost ps = crate::urls::pair_views(pairs@);
    let mut i: usize = 0;
    assert(ps.skip(0) =~= ps);
    while i < pairs.len()
        invariant
            0 <= i <= pairs@.len(),
            ps == crate::urls::pair_views(pairs@),
            first_value(ps, key@) == first_value(ps.skip(i as int), key@),
        decreases pairs.len() - i,
    {
        assert(ps.skip(i as int)[0] == ps[i as int]);
        assert(ps.skip(i as int).drop_first() =~= ps.skip(i + 1));
        if str_eq(pairs[i].0.as_str(), key) {
            return Some(owned(pairs[i].1.as_str()));
        }
        i += 1;
    }
    None
}

/// DuckDuckGo wraps result URLs behind an `uddg=` redirect parameter;
/// unwrap it so results point straight at the destination.
pub fn clean_ddg_url(raw: &str) -> (r: String)
    ensures
        r@ == cleaned_link(raw@),
{
    let cs = chars_of(raw);
    let s = if starts_with(&cs, "//") {
        proof {
            reveal_strlit("//");
        }
        let mut s = owned("https://");
        let rest = crate::text::string_of(&cs, 2, cs.len());
        push_str(&mut s, rest.as_str());
        s
    } else {
        owned(raw)
    };
    match url_query_pairs(s.as_str()) {
        Some(pairs) => match find_value(&pairs, "uddg") {
            Some(v) => v,
            None => s,
        },
        None => s,
    }
}

/// For every element of `scraper::Html::parse_document(html)` that `scope`
/// selects, in document order: the first element inside it that `link`
/// selects (its text and its attribute `attr`), and the text of the first
/// one that `snippet` selects. Empty when a selector does not parse.
pub uninterp spec fn scoped_links(html: Seq<char>, scope: Seq<char>, link: Seq<char>, attr: Seq<char>, snippet: Seq<char>) -> Seq<(Option<(Seq<char>, Option<Seq<char>>)>, Option<Seq<char>>)>;

/// What DuckDuckGo's HTML results page holds: for every `div.result`, in
/// document order, its first `a.result__a` (the link's text and `href`)
/// and the text of its first `.result__snippet`.
pub open spec fn ddg_nodes(html: Seq<char>) -> Seq<(Option<(Seq<char>, Option<Seq<char>>)>, Option<Seq<char>>)> {
    scoped_links(html, "div.result"@, "a.result__a"@, "href"@, "a.result__snippet, .result__snippet"@)
}

/// The views of the `div.result` nodes the parser lists.
pub open spec fn node_views(v: Seq<(Option<(String, Option<String>)>, Option<String>)>) -> Seq<(Option<(Seq<char>, Option<Seq<char>>)>, Option<Seq<char>>)> {
    v.map_values(
        |n: (Option<(String, Option<String>)>, Option<String>)|
            (
                match n.0 {
                    Some(a) => Some((a.0@, opt_view(a.1))),
                    None => None,
                },
                opt_view(n.1),
            ),
    )
}

/// Parses `body` with `scraper::Html::parse_document` and reads, for every
/// element `scope` selects, its first `link` element (text and attribute
/// `attr`) and the text of its first `snippet` element.
#[verifier::external_body]
fn html_scoped_links(body: &str, scope: &str, link: &str, attr: &str, snippet: &str) -> (r: Vec<(Option<(String, Option<String>)>, Option<String>)>)
    ensures
        node_views(r@) == scoped_links(body@, scope@, link@, attr@, snippet@),
{
    let doc = scraper::Html::parse_document(body);
    let sel = |s| scraper::Selector::parse(s).ok();
    let (Some(res), Some(title), Some(snip)) = (sel(scope), sel(link), sel(snippet)) else {
        return Vec::new();
    };
    doc.select(&res).map(|n| (
        n.select(&title).next().map(|a| (a.text().collect::<String>(), a.value().attr(attr).map(|h| h.to_string()))),
        n.select(&snip).next().map(|s| s.text().collect::<String>()),
    )).collect()
}

/// The result a `div.result` yields: it needs a title link with a
/// non-empty trimmed title and a non-empty cleaned URL.
pub open spec fn node_result(n: (Option<(Seq<char>, Option<Seq<char>>)>, Option<Seq<char>>)) -> Option<ResultView> {
    match n.0 {
        None => None,
        Some((text, href)) => {
            let title = trimmed(text);
            let url = cleaned_link(
                match href {
                    Some(h) => h,
                    None => Seq::empty(),
                },
            );
            if title.len() == 0 || url.len() == 0 {
                None
            } else {
                Some(
                    ResultView {
                        title,
                        url,
                        snippet: match n.1 {
                            Some(t) => trimmed(t),
                            None => Seq::empty(),
                        },
                        source: "DuckDuckGo"@,
                    },
                )
            }
        },
    }
}

/// The results of `nodes`, in order, reading no further once `max` are
/// found.
pub open spec fn results_of(nodes: Seq<(Option<(Seq<char>, Option<Seq<char>>)>, Option<Seq<char>>)>, max: nat) -> Seq<ResultView>
    decreases nodes.len(),
{
    if nodes.len() == 0 {
        Seq::empty()
    } else {
        let before = results_of(nodes.drop_last(), max);
        if before.len() >= max {
            before
        } else {
            match node_result(nodes.last()) {
                Some(r) => before.push(r),
                None => before,
            }
        }
    }
}

/// Trimmed copy of `s`.
fn trim_string(s: &str) -> (r: String)
    ensures
        r@ == trimmed(s@),
{
    let cs = chars_of(s);
    let t = crate::text::trim_chars(&cs);
    crate::text::string_from(&t)
}

/// The result one `div.result` yields, if any.
pub fn result_of_node(n: &(Option<(String, Option<String>)>, Option<String>)) -> (r: Option<SearchResult>)
    ensures
        match r {
            Some(x) => node_result(node_views(seq![*n])[0]) == Some(x@),
            None => node_result(node_views(seq![*n])[0]) is None,
        },
{
    let ghost nv = node_views(seq![*n])[0];
    match &n.0 {
        None => {
            assert(nv.0 is None);
            None
        },
        Some((text, href)) => {
            assert(nv.0 == Some((text@, opt_view(*href))));
            assert(nv.1 == opt_view(n.1));
            let title = trim_string(text.as_str());
            let url = match href {
                Some(h) => clean_ddg_url(h.as_str()),
                None => clean_ddg_url(""),
            };
            proof {
                reveal_strlit("");
                assert(""@ =~= Seq::<char>::empty());
                assert(title@ == trimmed(text@));
                assert(url@ == cleaned_link(
                    match opt_view(*href) {
                        Some(h) => h,
                        None => Seq::empty(),
                    },
                ));
            }
            if title.as_str().is_empty() || url.as_str().is_empty() {
                assert(title@.len() == 0 || url@.len() == 0);
                return None;
            }
            let snippet = match &n.1 {
                Some(t) => trim_string(t.as_str()),
                None => String::new(),
            };
            let r = SearchResult { title, url, snippet, source: owned("DuckDuckGo") };
            assert(node_result(nv) == Some(r@));
            Some(r)
        },
    }
}

/// Parse DuckDuckGo's HTML results page into at most `max_results`
/// results.
pub fn parse_ddg_html(body: &str, max_results: usize) -> (r: Vec<SearchResult>)
    ensures
        result_views(r@) == results_of(ddg_nodes(body@), max_results as nat),
{
    let nodes = html_scoped_links(body, "div.result", "a.result__a", "href", "a.result__snippet, .result__snippet");
    results_from_nodes(&nodes, max_results)
}

/// The results, at most `max_results`, that the `div.result` nodes the
/// parser found yield, in document order.
pub fn results_from_nodes(
    nodes: &Vec<(Option<(String, Option<String>)>, Option<String>)>,
    max_results: usize,
) -> (r: Vec<SearchResult>)
    ensures
        result_views(r@) == results_of(node_views(nodes@), max_results as nat),
{
    let ghost nv = node_views(nodes@);
    let mut out: Vec<SearchResult> = Vec::new();
    let mut i: usize = 0;
    while i < nodes.len()
        invariant
            0 <= i <= nodes@.len(),
            nv == node_views(nodes@),
            result_views(out@) == results_of(nv.take(i as int), max_results as nat),
        decreases nodes.len() - i,
    {
        assert(nv.take(i + 1).drop_last() =~= nv.take(i as int));
        assert(nv.take(i + 1).last() == nv[i as int]);
        assert(node_views(seq![nodes@[i as int]])[0] == nv[i as int]);
        if out.len() < max_results {
            match result_of_node(&nodes[i]) {
                Some(x) => {
                    let ghost before = out@;
                    out.push(x);
                    assert(result_views(out@) =~= result_views(before).push(x@));
                },
                None => {},
            }
        }
        i += 1;
    }
    assert(nv.take(nv.len() as int) =~= nv);
    out
}

} // verus!
