//! BlueFlame's own new-tab page, rendered as a `data:` URL the browse
//! webview loads without any fetch: the brand, a search box submitting to
//! the chosen engine (switchable from a dropdown), shortcuts and a
//! speed-dial of bookmarks and history.

use vstd::prelude::*;
use vstd::string::StringSliceAdditionalSpecFns;
use vstd::utf8::encode_utf8;

use crate::b64::{base64, push_base64};
use crate::html::{html_escaped, push_escaped};
use crate::search::{all_engines, engine_id, engine_name, form_encode, search_prefix, SearchEngine};
use crate::text::{
    chars_of, concat_map, has_prefix, lemma_concat_map_step, owned, push_char, push_str,
    starts_with,
};
use crate::storage::{Bookmark, Visit};
use crate::urls::{parsed_host, url_host};

verus! {

/// The page up to the logo's source.
pub const HEAD: &'static str = r#"<!doctype html>
<html lang="en">
<head>
<meta charset="utf-8">
<meta name="viewport" content="width=device-width,initial-scale=1">
<title>new tab - blueflame</title>
<link rel="preconnect" href="https://fonts.googleapis.com">
<link rel="preconnect" href="https://fonts.gstatic.com" crossorigin>
<link href="https://fonts.googleapis.com/css2?family=JetBrains+Mono:wght@400;500;700&display=swap" rel="stylesheet">
<style>
  :root {
    --bg: #0a0a0a;
    --bg-elev: #0d0d0d;
    --bg-raised: #141414;
    --border: #1d1d1d;
    --border-strong: #262626;
    --text: #d9e3ef;
    --text-dim: #6b7a8e;
    --text-muted: #4a5363;
    --accent: #00b3ff;
    --accent-bright: #5de0ff;
    --mono: 'JetBrains Mono', ui-monospace, Consolas, monospace;
  }
  * { box-sizing: border-box; margin: 0; padding: 0; }
  html, body { height: 100%; }
  body {
    font-family: var(--mono);
    background: var(--bg);
    color: var(--text);
    padding: 48px 24px 24px;
    font-size: 13px;
    line-height: 1.55;
  }
  .term { max-width: 760px; margin: 0 auto; }
  .brand-line {
    display: flex; align-items: baseline; gap: 10px;
    color: var(--text-dim);
    font-size: 12px;
  }
  .brand-line .logo {
    height: 22px;
    width: auto;
    display: block;
    -webkit-user-drag: none;
    user-select: none;
    /* Aligns the logo vertically with the baseline-aligned text. */
    transform: translateY(4px);
  }
  .brand-line .name { color: var(--text); font-weight: 700; font-size: 16px; }
  .brand-line .ver { color: var(--text-muted); font-size: 11px; }
  .tag {
    color: var(--text-dim); font-size: 12px;
    margin: 6px 0 22px;
    min-height: 18px;
    white-space: pre-wrap;
  }
  .tag .cursor { color: var(--accent); }
  .cursor.blink { animation: blink 1s steps(2, end) infinite; }
  @keyframes blink {
    0%, 50% { opacity: 1; }
    51%, 100% { opacity: 0; }
  }
  form {
    display: grid;
    grid-template-columns: auto 1fr auto;
    align-items: center;
    gap: 0;
    border: 1px solid var(--border-strong);
    background: var(--bg-elev);
  }
  form:focus-within { border-color: var(--accent); }
  .prompt {
    padding: 0 10px;
    color: var(--accent);
    font-family: var(--mono);
    font-size: 13px;
    line-height: 34px;
    user-select: none;
  }
  input[type=text] {
    padding: 8px 4px;
    background: transparent;
    border: none;
    color: var(--text);
    font-family: var(--mono);
    font-size: 13px;
    outline: none;
    width: 100%;
  }
  input[type=text]::placeholder { color: var(--text-muted); }
  button.go {
    padding: 8px 16px;
    background: var(--accent);
    color: #000;
    border: none;
    font-family: var(--mono);
    font-weight: 700;
    font-size: 11px;
    cursor: pointer;
  }
  button.go:hover { background: var(--accent-bright); }
  .meta {
    margin-top: 10px;
    color: var(--text-muted);
    font-size: 11px;
    display: flex;
    align-items: center;
    gap: 6px;
  }
  .meta .k { color: var(--text-dim); }
  .meta .v { color: var(--accent); }
  .engine-select {
    background: var(--bg-elev);
    border: 1px solid var(--border-strong);
    border-radius: 0;
    color: var(--accent);
    font-family: var(--mono);
    font-size: 11px;
    padding: 2px 6px;
    cursor: pointer;
    outline: none;
  }
  .engine-select:hover,
  .engine-select:focus { border-color: var(--accent); }
  .engine-select option {
    background: var(--bg);
    color: var(--text);
  }
  .section {
    margin-top: 30px;
  }
  .section-label {
    font-size: 11px;
    color: var(--text-dim);
    margin-bottom: 8px;
  }
  .section-label .hash { color: var(--accent); }
  .shortcuts {
    display: flex; flex-wrap: wrap;
    gap: 0;
  }
  .shortcuts a {
    padding: 4px 12px;
    color: var(--text-dim);
    font-size: 12px;
    text-decoration: none;
    transition: color 120ms ease;
  }
  .shortcuts a::before { content: '['; color: var(--text-muted); }
  .shortcuts a::after { content: ']'; color: var(--text-muted); }
  .shortcuts a:hover { color: var(--accent); }
  .shortcuts a:hover::before,
  .shortcuts a:hover::after { color: var(--accent); }
  .sd-list {
    display: flex; flex-direction: column;
    border: 1px solid var(--border-strong);
    background: var(--bg-elev);
  }
  .sd-row {
    display: grid;
    grid-template-columns: auto minmax(0, 1fr) minmax(0, 1.2fr);
    gap: 12px;
    padding: 5px 10px;
    font-size: 12px;
    color: var(--text-dim);
    text-decoration: none;
    border-bottom: 1px solid var(--border);
    transition: background 80ms ease, color 80ms ease;
  }
  .sd-row:last-child { border-bottom: none; }
  .sd-row:hover { background: var(--bg-raised); color: var(--accent); }
  .sd-src { color: var(--text-muted); }
  .sd-row:hover .sd-src { color: var(--accent); }
  .sd-title {
    color: var(--text);
    overflow: hidden; text-overflow: ellipsis; white-space: nowrap;
  }
  .sd-row:hover .sd-title { color: var(--accent-bright); }
  .sd-url {
    color: var(--text-muted);
    font-size: 10px;
    overflow: hidden; text-overflow: ellipsis; white-space: nowrap;
    text-align: right;
  }
  .sd-empty {
    padding: 14px;
    font-size: 11px;
    color: var(--text-muted);
  }
</style>
</head>
<body>
<main class="term">
  <div class="brand-line">
    <img class="logo" src=""#;

/// From the logo to the engine options.
pub const AFTER_LOGO: &'static str = r#"" alt="" aria-hidden="true">
    <span class="name">blueflame</span>
    <span class="ver">v0.1</span>
  </div>
  <div class="tag"><span id="tag"></span><span class="cursor blink" id="tag-cursor">_</span></div>
  <form id="f" action="javascript:void(0)" onsubmit="go(event)">
    <span class="prompt">&gt;</span>
    <input id="q" type="text" placeholder="search or enter a url" autofocus autocomplete="off" spellcheck="false">
    <button class="go" type="submit">go</button>
  </form>
  <div class="meta">
    <label class="k" for="engine-select">engine:</label>
    <select id="engine-select" class="engine-select" aria-label="search engine">"#;

/// From the engine options to the quick-access tiles.
pub const AFTER_OPTIONS: &'static str = r#"</select>
  </div>

  <div class="section">
    <div class="section-label"><span class="hash">#</span> shortcuts</div>
    <div class="shortcuts">
      <a href="https://github.com/w1ck3ds0d4/BlueFlame">github</a>
      <a href="https://en.wikipedia.org/">wikipedia</a>
      <a href="https://news.ycombinator.com/">hacker news</a>
    </div>
  </div>

  <div class="section">
    <div class="section-label"><span class="hash">#</span> quick access</div>
    "#;

/// From the tiles to the engine map of the script.
pub const AFTER_TILES: &'static str = r#"
  </div>
</main>
<script>
  // Typewriter on the tagline (~35ms/char, then leaves the blinking cursor).
  const tagText = "// privacy-first browser shell";
  const tagEl = document.getElementById('tag');
  let idx = 0;
  const typer = setInterval(() => {
    if (idx >= tagText.length) { clearInterval(typer); return; }
    tagEl.textContent += tagText[idx++];
  }, 35);


  // All engine URL templates baked in so the dropdown can override the
  // default engine just for the search initiated from this new-tab page.
  // The global default is still managed in Settings.
  const ENGINES = "#;

/// From the engine map to the default engine id.
pub const AFTER_MAP: &'static str = r#";
  let activeEngine = "#;

/// From the engine id to the fallback search template.
pub const AFTER_ENGINE_ID: &'static str = r#";
  const engineSelect = document.getElementById('engine-select');
  engineSelect.addEventListener('change', (e) => {
    activeEngine = e.target.value;
  });

  function go(e) {
    e.preventDefault();
    const q = document.getElementById('q').value.trim();
    if (!q) return;
    if (/^https?:\/\//i.test(q)) { location.href = q; return; }
    if (!q.includes(' ') && q.includes('.')) { location.href = 'https://' + q; return; }
    const template = ENGINES[activeEngine] || "#;

/// The rest of the page.
pub const TAIL: &'static str = r#";
    location.href = template.replace('__QUERY__', encodeURIComponent(q));
  }
</script>
</body>
</html>
"#;

/// Start of a tile, up to its link target.
pub const TILE_OPEN: &'static str = r#"<a class="sd-row" href=""#;

/// Between link target and source tag.
pub const TILE_SOURCE: &'static str = r#""><span class="sd-src">"#;

/// Between source tag and title.
pub const TILE_TITLE: &'static str = r#"</span><span class="sd-title">"#;

/// Between title and shown URL.
pub const TILE_URL: &'static str = r#"</span><span class="sd-url">"#;

/// End of a tile.
pub const TILE_CLOSE: &'static str = r#"</span></a>"#;

/// Shown instead of tiles when there are none.
pub const NO_TILES: &'static str = r#"<div class="sd-empty">// no visits yet - start browsing to populate</div>"#;

/// Where a speed-dial tile comes from; shown as a tag.
#[derive(Debug, Clone, Copy, PartialEq, Eq, Structural)]
pub enum TileSource {
    Bookmark,
    History,
}

/// The tag of a tile source.
pub open spec fn source_label(s: TileSource) -> Seq<char> {
    match s {
        TileSource::Bookmark => "[b]"@,
        TileSource::History => "[h]"@,
    }
}

impl TileSource {
    /// The tag shown for this source.
    pub fn label(self) -> (r: &'static str)
        ensures
            r@ == source_label(self),
    {
        match self {
            TileSource::Bookmark => "[b]",
            TileSource::History => "[h]",
        }
    }
}

/// One speed-dial tile.
#[derive(Debug)]
pub struct Tile {
    pub title: String,
    pub url: String,
    pub source: TileSource,
}

/// A tile as plain values.
pub ghost struct TileView {
    pub title: Seq<char>,
    pub url: Seq<char>,
    pub source: TileSource,
}

impl View for Tile {
    type V = TileView;

    open spec fn view(&self) -> TileView {
        TileView { title: self.title@, url: self.url@, source: self.source }
    }
}

impl Clone for Tile {
    fn clone(&self) -> (r: Self)
        ensures
            r@ == self@,
    {
        Tile { title: owned(self.title.as_str()), url: owned(self.url.as_str()), source: self.source }
    }
}

/// The views of a list of tiles.
pub open spec fn tile_views(ts: Seq<Tile>) -> Seq<TileView> {
    ts.map_values(|t: Tile| t@)
}

/// `s` without every leading `www.`.
pub open spec fn strip_www(s: Seq<char>) -> Seq<char>
    decreases s.len(),
{
    if s.len() >= 4 && has_prefix(s, "www."@) {
        strip_www(s.skip(4))
    } else {
        s
    }
}

/// How a tile's URL is shown: its host without `www.`, or the URL itself
/// when it has no host.
pub open spec fn shown_url(url: Seq<char>) -> Seq<char> {
    match parsed_host(url) {
        Some(h) => strip_www(h),
        None => url,
    }
}

/// A tile's title, falling back to its shown URL.
pub open spec fn shown_title(t: TileView) -> Seq<char> {
    if t.title.len() > 0 {
        t.title
    } else {
        shown_url(t.url)
    }
}

/// One tile rendered.
pub open spec fn tile_html(t: TileView) -> Seq<char> {
    TILE_OPEN@ + html_escaped(t.url) + TILE_SOURCE@ + source_label(t.source) + TILE_TITLE@
        + html_escaped(shown_title(t)) + TILE_URL@ + html_escaped(shown_url(t.url)) + TILE_CLOSE@
}

/// Every tile rendered, in order.
pub open spec fn tiles_items(ts: Seq<TileView>) -> Seq<char>
    decreases ts.len(),
{
    if ts.len() == 0 {
        Seq::empty()
    } else {
        tiles_items(ts.drop_last()) + tile_html(ts.last())
    }
}

/// The speed-dial: a list of tiles, or a hint when there are none.
pub open spec fn tiles_block(ts: Seq<TileView>) -> Seq<char> {
    if ts.len() == 0 {
        NO_TILES@
    } else {
        "<div class=\"sd-list\">"@ + tiles_items(ts) + "</div>"@
    }
}

/// One engine's `<option>`, selected when it is `current`.
pub open spec fn engine_option(e: SearchEngine, current: SearchEngine) -> Seq<char> {
    "<option value=\""@ + engine_id(e) + "\""@ + (if e == current {
        " selected"@
    } else {
        Seq::empty()
    }) + ">"@ + engine_name(e) + "</option>"@
}

/// The options of every engine in `es`.
pub open spec fn engine_options(es: Seq<SearchEngine>, current: SearchEngine) -> Seq<char>
    decreases es.len(),
{
    if es.len() == 0 {
        Seq::empty()
    } else {
        engine_options(es.drop_last(), current) + engine_option(es.last(), current)
    }
}

/// The query placeholder the page substitutes.
pub open spec fn query_slot() -> Seq<char> {
    "__QUERY__"@
}

/// An engine's URL template.
pub open spec fn engine_template(e: SearchEngine) -> Seq<char> {
    search_prefix(e) + form_encode(encode_utf8(query_slot()))
}

/// One character escaped for a JSON string.
pub open spec fn json_char(c: char) -> Seq<char> {
    if c == '\\' {
        seq!['\\', '\\']
    } else if c == '"' {
        seq!['\\', '"']
    } else {
        seq![c]
    }
}

/// `s` escaped for a JSON string.
pub open spec fn json_escaped(s: Seq<char>) -> Seq<char> {
    concat_map(s, |c: char| json_char(c))
}

/// One `"id":"template"` entry of the engine map.
pub open spec fn map_entry(e: SearchEngine) -> Seq<char> {
    "\""@ + engine_id(e) + "\":\""@ + json_escaped(engine_template(e)) + "\""@
}

/// The entries of every engine in `es`, comma-separated.
pub open spec fn map_entries(es: Seq<SearchEngine>) -> Seq<char>
    decreases es.len(),
{
    if es.len() == 0 {
        Seq::empty()
    } else if es.len() == 1 {
        map_entry(es[0])
    } else {
        map_entries(es.drop_last()) + ","@ + map_entry(es.last())
    }
}

/// The JSON object mapping every engine's id to its URL template.
pub open spec fn engine_map() -> Seq<char> {
    "{"@ + map_entries(all_engines()) + "}"@
}

/// A string as a JavaScript literal: the ids and templates hold no
/// character that needs escaping, so quoting is all it takes.
pub open spec fn quoted(s: Seq<char>) -> Seq<char> {
    "\""@ + s + "\""@
}

/// The new-tab page for `engine` with `tiles`, the logo at `logo_url`.
pub open spec fn new_tab_html(engine: SearchEngine, tiles: Seq<TileView>, logo_url: Seq<char>) -> Seq<char> {
    HEAD@ + logo_url + AFTER_LOGO@ + engine_options(all_engines(), engine) + AFTER_OPTIONS@
        + tiles_block(tiles) + AFTER_TILES@ + engine_map() + AFTER_MAP@ + quoted(engine_id(engine))
        + AFTER_ENGINE_ID@ + quoted(engine_template(engine)) + TAIL@
}

/// `s` without every leading `www.`.
pub(crate) fn trim_www(s: &str) -> (r: String)
    ensures
        r@ == strip_www(s@),
{
    let cs = chars_of(s);
    let mut i: usize = 0;
    assert(cs@.skip(0) =~= cs@);
    while cs.len() - i >= 4 && cs[i] == 'w' && cs[i + 1] == 'w' && cs[i + 2] == 'w' && cs[i + 3] == '.'
        invariant
            0 <= i <= cs@.len(),
            cs@ == s@,
            strip_www(s@) == strip_www(cs@.skip(i as int)),
        decreases cs.len() - i,
    {
        let ghost t = cs@.skip(i as int);
        proof {
            reveal_strlit("www.");
            assert(t.subrange(0, 4) =~= "www."@);
        }
        assert(t.skip(4) =~= cs@.skip(i + 4));
        i += 4;
    }
    proof {
        reveal_strlit("www.");
        let t = cs@.skip(i as int);
        if t.len() >= 4 && has_prefix(t, "www."@) {
            assert(t.subrange(0, 4)[0] == 'w');
            assert(t.subrange(0, 4)[1] == 'w');
            assert(t.subrange(0, 4)[2] == 'w');
            assert(t.subrange(0, 4)[3] == '.');
            assert(cs@[i as int] == t[0]);
            assert(cs@[i + 1] == t[1]);
            assert(cs@[i + 2] == t[2]);
            assert(cs@[i + 3] == t[3]);
        }
        assert(cs@.subrange(i as int, cs@.len() as int) =~= t);
    }
    crate::text::string_of(&cs, i, cs.len())
}

/// How a tile's URL is shown.
pub fn display_url(url: &str) -> (r: String)
    ensures
        r@ == shown_url(url@),
{
    match url_host(url) {
        Some(h) => trim_www(h.as_str()),
        None => owned(url),
    }
}

/// A tile's title, falling back to its shown URL.
pub fn display_title(t: &Tile) -> (r: String)
    ensures
        r@ == shown_title(t@),
{
    if !t.title.as_str().is_empty() {
        owned(t.title.as_str())
    } else {
        display_url(t.url.as_str())
    }
}

/// Append one rendered tile.
fn push_tile(out: &mut String, t: &Tile)
    ensures
        final(out)@ == old(out)@ + tile_html(t@),
{
    push_str(out, TILE_OPEN);
    push_escaped(out, t.url.as_str());
    push_str(out, TILE_SOURCE);
    push_str(out, t.source.label());
    push_str(out, TILE_TITLE);
    let title = display_title(t);
    push_escaped(out, title.as_str());
    push_str(out, TILE_URL);
    let shown = display_url(t.url.as_str());
    push_escaped(out, shown.as_str());
    push_str(out, TILE_CLOSE);
}

/// The speed-dial block.
pub fn render_tiles(tiles: &[Tile]) -> (r: String)
    ensures
        r@ == tiles_block(tile_views(tiles@)),
{
    if tiles.len() == 0 {
        return owned(NO_TILES);
    }
    let ghost tv = tile_views(tiles@);
    let mut items = String::new();
    let mut i: usize = 0;
    assert(tv.take(0) =~= Seq::<TileView>::empty());
    while i < tiles.len()
        invariant
            0 <= i <= tiles@.len(),
            tv == tile_views(tiles@),
            items@ == tiles_items(tv.take(i as int)),
        decreases tiles.len() - i,
    {
        push_tile(&mut items, &tiles[i]);
        assert(tv.take(i + 1).drop_last() =~= tv.take(i as int));
        assert(tv.take(i + 1).last() == tiles@[i as int]@);
        i += 1;
    }
    assert(tv.take(tv.len() as int) =~= tv);
    let mut out = owned("<div class=\"sd-list\">");
    push_str(&mut out, items.as_str());
    push_str(&mut out, "</div>");
    out
}

/// The `<option>` of every engine, `current` selected.
pub fn render_engine_options(current: SearchEngine) -> (r: String)
    ensures
        r@ == engine_options(all_engines(), current),
{
    let es = SearchEngine::all();
    let mut out = String::new();
    let mut i: usize = 0;
    assert(es@.take(0) =~= Seq::<SearchEngine>::empty());
    while i < es.len()
        invariant
            0 <= i <= es@.len(),
            es@ == all_engines(),
            out@ == engine_options(es@.take(i as int), current),
        decreases es.len() - i,
    {
        let e = es[i];
        push_str(&mut out, "<option value=\"");
        push_str(&mut out, e.id());
        push_str(&mut out, "\"");
        if e == current {
            push_str(&mut out, " selected");
        }
        push_str(&mut out, ">");
        push_str(&mut out, e.display_name());
        push_str(&mut out, "</option>");
        proof {
            reveal_strlit("");
            assert(es@.take(i + 1).drop_last() =~= es@.take(i as int));
            assert(es@.take(i + 1).last() == e);
        }
        assert(out@ =~= engine_options(es@.take(i + 1), current));
        i += 1;
    }
    assert(es@.take(es@.len() as int) =~= es@);
    out
}

/// `s` escaped for a JSON string, appended to `out`.
fn push_json_escaped(out: &mut String, s: &str)
    ensures
        final(out)@ == old(out)@ + json_escaped(s@),
{
    let cs = chars_of(s);
    let ghost start = out@;
    let ghost f = |c: char| json_char(c);
    let mut i: usize = 0;
    assert(cs@.take(0) =~= Seq::<char>::empty());
    assert(start + concat_map(cs@.take(0), f) =~= start);
    while i < cs.len()
        invariant
            0 <= i <= cs@.len(),
            cs@ == s@,
            f == (|c: char| json_char(c)),
            out@ == start + concat_map(cs@.take(i as int), f),
        decreases cs.len() - i,
    {
        let c = cs[i];
        proof {
            lemma_concat_map_step(cs@, i as int, f);
        }
        if c == '\\' {
            push_char(out, '\\');
            push_char(out, '\\');
        } else if c == '"' {
            push_char(out, '\\');
            push_char(out, '"');
        } else {
            push_char(out, c);
        }
        assert(out@ =~= start + concat_map(cs@.take(i + 1), f));
        i += 1;
    }
    assert(cs@.take(cs@.len() as int) =~= cs@);
}

/// The JSON object mapping every engine's id to its URL template.
pub fn render_engine_map() -> (r: String)
    ensures
        r@ == engine_map(),
{
    let es = SearchEngine::all();
    let mut out = owned("{");
    let mut i: usize = 0;
    assert(es@.take(0) =~= Seq::<SearchEngine>::empty());
    while i < es.len()
        invariant
            0 <= i <= es@.len(),
            es@ == all_engines(),
            out@ == "{"@ + map_entries(es@.take(i as int)),
        decreases es.len() - i,
    {
        let e = es[i];
        if i > 0 {
            push_char(&mut out, ',');
        }
        push_str(&mut out, "\"");
        push_str(&mut out, e.id());
        push_str(&mut out, "\":\"");
        let template = e.search_url("__QUERY__");
        push_json_escaped(&mut out, template.as_str());
        push_str(&mut out, "\"");
        proof {
            reveal_strlit(",");
            assert(es@.take(i + 1).drop_last() =~= es@.take(i as int));
            assert(es@.take(i + 1).last() == e);
            if i == 0 {
                assert(es@.take(1)[0] == e);
            }
        }
        assert(out@ =~= "{"@ + map_entries(es@.take(i + 1)));
        i += 1;
    }
    assert(es@.take(es@.len() as int) =~= es@);
    push_str(&mut out, "}");
    out
}

/// The new-tab page for `engine` with `tiles`, as self-contained HTML
/// with the brand logo inlined from `logo_url`.
pub fn render(engine: SearchEngine, tiles: &[Tile], logo_url: &str) -> (r: String)
    ensures
        r@ == new_tab_html(engine, tile_views(tiles@), logo_url@),
{
    let options = render_engine_options(engine);
    let tiles_html = render_tiles(tiles);
    let map = render_engine_map();
    let template = engine.search_url("__QUERY__");
    let mut out = owned(HEAD);
    push_str(&mut out, logo_url);
    push_str(&mut out, AFTER_LOGO);
    push_str(&mut out, options.as_str());
    push_str(&mut out, AFTER_OPTIONS);
    push_str(&mut out, tiles_html.as_str());
    push_str(&mut out, AFTER_TILES);
    push_str(&mut out, map.as_str());
    push_str(&mut out, AFTER_MAP);
    push_str(&mut out, "\"");
    push_str(&mut out, engine.id());
    push_str(&mut out, "\"");
    push_str(&mut out, AFTER_ENGINE_ID);
    push_str(&mut out, "\"");
    push_str(&mut out, template.as_str());
    push_str(&mut out, "\"");
    push_str(&mut out, TAIL);
    assert(out@ =~= new_tab_html(engine, tile_views(tiles@), logo_url@));
    out
}

/// The new-tab page as a `data:text/html` URL the webview can open.
pub fn data_url(engine: SearchEngine, tiles: &[Tile], logo_url: &str) -> (r: String)
    ensures
        r@ == "data:text/html;charset=utf-8;base64,"@ + base64(
            encode_utf8(new_tab_html(engine, tile_views(tiles@), logo_url@)),
        ),
{
    let html = render(engine, tiles, logo_url);
    let mut out = owned("data:text/html;charset=utf-8;base64,");
    push_base64(&mut out, html.as_str().as_bytes());
    out
}

// ---------------------------------------------------------------------
// Choosing the speed-dial tiles
// ---------------------------------------------------------------------

/// The URLs of a list of tiles.
pub open spec fn tile_urls(ts: Seq<TileView>) -> Seq<Seq<char>> {
    ts.map_values(|t: TileView| t.url)
}

/// Bookmarks (url, title) as tiles, in order, each URL once.
pub open spec fn dial_bookmarks(bs: Seq<(Seq<char>, Seq<char>)>) -> Seq<TileView>
    decreases bs.len(),
{
    if bs.len() == 0 {
        Seq::empty()
    } else {
        let o = dial_bookmarks(bs.drop_last());
        if tile_urls(o).contains(bs.last().0) {
            o
        } else {
            o.push(TileView { title: bs.last().1, url: bs.last().0, source: TileSource::Bookmark })
        }
    }
}

/// History entries (url, title) appended to `o` in order while fewer than
/// `limit` tiles are shown, each URL once.
pub open spec fn dial_history(o: Seq<TileView>, hs: Seq<(Seq<char>, Seq<char>)>, limit: nat) -> Seq<TileView>
    decreases hs.len(),
{
    if hs.len() == 0 {
        o
    } else {
        let b = dial_history(o, hs.drop_last(), limit);
        if b.len() >= limit || tile_urls(b).contains(hs.last().0) {
            b
        } else {
            b.push(TileView { title: hs.last().1, url: hs.last().0, source: TileSource::History })
        }
    }
}

/// The speed dial: the first `limit` bookmarks, then the most visited
/// pages, at most `limit` tiles, each URL once, bookmarks winning.
pub open spec fn speed_dial(
    bs: Seq<(Seq<char>, Seq<char>)>,
    hs: Seq<(Seq<char>, Seq<char>)>,
    limit: nat,
) -> Seq<TileView> {
    dial_history(dial_bookmarks(first_n(bs, limit)), hs, limit)
}

/// The first `n` of `s` (all of it when it is shorter).
pub open spec fn first_n<T>(s: Seq<T>, n: nat) -> Seq<T> {
    if n < s.len() {
        s.take(n as int)
    } else {
        s
    }
}

/// Bookmarks as (url, title).
pub open spec fn bookmark_pairs(bs: Seq<Bookmark>) -> Seq<(Seq<char>, Seq<char>)> {
    bs.map_values(|b: Bookmark| (b.url@, b.title@))
}

/// Visits as (url, title).
pub open spec fn visit_pairs(vs: Seq<Visit>) -> Seq<(Seq<char>, Seq<char>)> {
    vs.map_values(|v: Visit| (v.url@, v.title@))
}

/// Whether a tile for `url` is already in `out`.
fn has_tile(out: &Vec<Tile>, url: &str) -> (r: bool)
    ensures
        r == tile_urls(tile_views(out@)).contains(url@),
{
    let mut i: usize = 0;
    while i < out.len()
        invariant
            0 <= i <= out@.len(),
            forall|j: int| 0 <= j < i ==> out@[j].url@ != url@,
        decreases out.len() - i,
    {
        if crate::text::str_eq(out[i].url.as_str(), url) {
            assert(tile_urls(tile_views(out@))[i as int] == url@);
            return true;
        }
        i += 1;
    }
    proof {
        if tile_urls(tile_views(out@)).contains(url@) {
            let j = choose|j: int|
                0 <= j < tile_urls(tile_views(out@)).len() && tile_urls(tile_views(out@))[j] == url@;
            assert(out@[j].url@ == url@);
        }
    }
    false
}

/// Append a tile to a list.
fn append_tile(out: &mut Vec<Tile>, t: Tile)
    ensures
        tile_views(final(out)@) == tile_views(old(out)@).push(t@),
{
    let ghost before = out@;
    let ghost tv = t@;
    out.push(t);
    assert(tile_views(out@) =~= tile_views(before).push(tv));
}

/// The speed-dial tiles from the bookmarks and the most visited pages.
pub fn speed_dial_tiles(bookmarks: &Vec<Bookmark>, history: &Vec<Visit>, limit: usize) -> (r: Vec<Tile>)
    ensures
        tile_views(r@) == speed_dial(bookmark_pairs(bookmarks@), visit_pairs(history@), limit as nat),
{
    let ghost bs = bookmark_pairs(bookmarks@);
    let ghost hs = visit_pairs(history@);
    let n = if bookmarks.len() < limit {
        bookmarks.len()
    } else {
        limit
    };
    let ghost bt = bs.take(n as int);
    assert(first_n(bs, limit as nat) =~= bt);
    let mut out: Vec<Tile> = Vec::new();
    let mut i: usize = 0;
    assert(bt.take(0) =~= Seq::<(Seq<char>, Seq<char>)>::empty());
    while i < n
        invariant
            0 <= i <= n <= bookmarks@.len(),
            bs == bookmark_pairs(bookmarks@),
            bt == bs.take(n as int),
            tile_views(out@) == dial_bookmarks(bt.take(i as int)),
        decreases n - i,
    {
        assert(bt.take(i + 1).drop_last() =~= bt.take(i as int));
        assert(bt.take(i + 1).last() == bs[i as int]);
        if !has_tile(&out, bookmarks[i].url.as_str()) {
            append_tile(
                &mut out,
                Tile {
                    title: owned(bookmarks[i].title.as_str()),
                    url: owned(bookmarks[i].url.as_str()),
                    source: TileSource::Bookmark,
                },
            );
        }
        i += 1;
    }
    assert(bt.take(n as int) =~= bt);
    let ghost o0 = tile_views(out@);
    let mut k: usize = 0;
    assert(hs.take(0) =~= Seq::<(Seq<char>, Seq<char>)>::empty());
    while k < history.len()
        invariant
            0 <= k <= history@.len(),
            hs == visit_pairs(history@),
            tile_views(out@) == dial_history(o0, hs.take(k as int), limit as nat),
        decreases history.len() - k,
    {
        assert(hs.take(k + 1).drop_last() =~= hs.take(k as int));
        assert(hs.take(k + 1).last() == hs[k as int]);
        if out.len() < limit && !has_tile(&out, history[k].url.as_str()) {
            append_tile(
                &mut out,
                Tile {
                    title: owned(history[k].title.as_str()),
                    url: owned(history[k].url.as_str()),
                    source: TileSource::History,
                },
            );
        }
        k += 1;
    }
    assert(hs.take(hs.len() as int) =~= hs);
    out
}

/// The speed dial never shows a URL twice.
pub proof fn lemma_speed_dial_distinct(
    bs: Seq<(Seq<char>, Seq<char>)>,
    hs: Seq<(Seq<char>, Seq<char>)>,
    limit: nat,
)
    ensures
        tile_urls(speed_dial(bs, hs, limit)).no_duplicates(),
{
    lemma_dial_bookmarks_distinct(first_n(bs, limit));
    lemma_dial_history_distinct(dial_bookmarks(first_n(bs, limit)), hs, limit);
}

proof fn lemma_dial_bookmarks_distinct(bs: Seq<(Seq<char>, Seq<char>)>)
    ensures
        tile_urls(dial_bookmarks(bs)).no_duplicates(),
    decreases bs.len(),
{
    if bs.len() > 0 {
        lemma_dial_bookmarks_distinct(bs.drop_last());
        let o = dial_bookmarks(bs.drop_last());
        if !tile_urls(o).contains(bs.last().0) {
            let t = TileView { title: bs.last().1, url: bs.last().0, source: TileSource::Bookmark };
            assert(tile_urls(o.push(t)) =~= tile_urls(o).push(t.url));
        }
    }
}

proof fn lemma_dial_history_distinct(o: Seq<TileView>, hs: Seq<(Seq<char>, Seq<char>)>, limit: nat)
    requires
        tile_urls(o).no_duplicates(),
    ensures
        tile_urls(dial_history(o, hs, limit)).no_duplicates(),
    decreases hs.len(),
{
    if hs.len() > 0 {
        lemma_dial_history_distinct(o, hs.drop_last(), limit);
        let b = dial_history(o, hs.drop_last(), limit);
        if !(b.len() >= limit || tile_urls(b).contains(hs.last().0)) {
            let t = TileView { title: hs.last().1, url: hs.last().0, source: TileSource::History };
            assert(tile_urls(b.push(t)) =~= tile_urls(b).push(t.url));
        }
    }
}

} // verus!
