//! URL-bar routing and the tab bookkeeping behind the browser shell.

use vstd::prelude::*;
use vstd::utf8::encode_utf8;

use crate::new_tab::{strip_www, trim_www};
use crate::search::{form_encode, search_prefix, SearchEngine};
use crate::metasearch::{find_value, first_value};
use crate::urls::{
    pair_views, parsed_host, parsed_path, parsed_query_pairs, parsed_scheme, serialized, url_host,
    url_path, url_query_pairs, url_scheme, url_serialized, url_with_query, with_query,
};
use crate::text::{
    chars_of, concat_map, decimal, has_prefix, lemma_concat_map_step, lemma_decimal_injective, opt_view, owned,
    push_char, push_str, starts_with, str_eq, string_from, trim_chars, trimmed, u64_to_decimal,
};

verus! {

/// How the URL bar treats what the user typed.
#[derive(Debug, Clone, Copy, PartialEq, Eq, Structural)]
pub enum Route {
    /// Nothing but whitespace.
    Empty,
    /// Already a URL (`http://`, `https://`, `data:`, `about:`): used as is.
    Direct,
    /// A bare host (has a dot, no space): gets `https://` prepended.
    BareHost,
    /// Anything else: sent to the search engine.
    Search,
}

/// `s` contains the character `c`.
pub open spec fn has_char(s: Seq<char>, c: char) -> bool {
    exists|i: int| 0 <= i < s.len() && s[i] == c
}

/// Whether a trimmed input already names a URL scheme the shell opens as is.
pub open spec fn is_direct(t: Seq<char>) -> bool {
    has_prefix(t, "http://"@) || has_prefix(t, "https://"@) || has_prefix(t, "data:"@)
        || has_prefix(t, "about:"@)
}

/// The route an input takes.
pub open spec fn route(input: Seq<char>) -> Route {
    let t = trimmed(input);
    if t.len() == 0 {
        Route::Empty
    } else if is_direct(t) {
        Route::Direct
    } else if !has_char(t, ' ') && has_char(t, '.') {
        Route::BareHost
    } else {
        Route::Search
    }
}

/// The URL an input resolves to, when it is not empty.
pub open spec fn resolved(input: Seq<char>, engine: SearchEngine) -> Seq<char> {
    let t = trimmed(input);
    match route(input) {
        Route::Direct => t,
        Route::BareHost => "https://"@ + t,
        _ => search_prefix(engine) + form_encode(encode_utf8(t)),
    }
}

/// Input that already names a URL (`http://`, `https://`, `data:` or
/// `about:` once trimmed) opens exactly as typed, trimmed: no `https://`
/// is prepended and it is never sent to the search engine.
pub proof fn law_urls_open_as_typed(input: Seq<char>, engine: SearchEngine)
    requires
        has_prefix(trimmed(input), "http://"@) || has_prefix(trimmed(input), "https://"@)
            || has_prefix(trimmed(input), "data:"@) || has_prefix(trimmed(input), "about:"@),
    ensures
        route(input) != Route::Empty,
        resolved(input, engine) == trimmed(input),
{
    reveal_strlit("http://");
    reveal_strlit("https://");
    reveal_strlit("data:");
    reveal_strlit("about:");
}

/// Input without a URL scheme: a single word with a dot in it (once
/// trimmed) opens as an HTTPS host; anything with a space, or without a
/// dot, goes to the search engine.
pub proof fn law_hosts_and_searches(input: Seq<char>, engine: SearchEngine)
    requires
        trimmed(input).len() > 0,
        !(has_prefix(trimmed(input), "http://"@) || has_prefix(trimmed(input), "https://"@)
            || has_prefix(trimmed(input), "data:"@) || has_prefix(trimmed(input), "about:"@)),
    ensures
        (forall|i: int| 0 <= i < trimmed(input).len() ==> trimmed(input)[i] != ' ') && (exists|i: int|
            0 <= i < trimmed(input).len() && trimmed(input)[i] == '.') ==> resolved(input, engine)
            == "https://"@ + trimmed(input),
        ((exists|i: int| 0 <= i < trimmed(input).len() && trimmed(input)[i] == ' ') || (forall|i: int|
            0 <= i < trimmed(input).len() ==> trimmed(input)[i] != '.')) ==> has_prefix(
            resolved(input, engine),
            search_prefix(engine),
        ),
{
    let t = trimmed(input);
    let r = resolved(input, engine);
    if route(input) == Route::Search {
        let q = form_encode(encode_utf8(t));
        assert(r == search_prefix(engine) + q);
        assert(r.take(search_prefix(engine).len() as int) =~= search_prefix(engine));
    }
}

/// Why the URL bar could not produce a URL.
#[derive(Debug, Clone, Copy, PartialEq, Eq, Structural)]
pub enum ResolveError {
    /// The input was empty or only whitespace.
    EmptyInput,
}

fn has_char_exec(cs: &[char], c: char) -> (b: bool)
    ensures
        b == has_char(cs@, c),
{
    let mut i: usize = 0;
    while i < cs.len()
        invariant
            0 <= i <= cs@.len(),
            forall|k: int| 0 <= k < i ==> cs@[k] != c,
        decreases cs.len() - i,
    {
        if cs[i] == c {
            return true;
        }
        i += 1;
    }
    false
}

fn route_of(t: &[char]) -> (r: Route)
    requires
        t@ == trimmed(t@),
    ensures
        r == route(t@),
{
    if t.len() == 0 {
        return Route::Empty;
    }
    if starts_with(t, "http://") || starts_with(t, "https://") || starts_with(t, "data:")
        || starts_with(t, "about:") {
        return Route::Direct;
    }
    if !has_char_exec(t, ' ') && has_char_exec(t, '.') {
        Route::BareHost
    } else {
        Route::Search
    }
}

/// Turn whatever the user typed into the URL bar into an `http(s)` URL.
/// Plain words or multi-word queries route to the user's chosen search engine.
pub fn resolve_url(input: &str, engine: SearchEngine) -> (r: Result<String, ResolveError>)
    ensures
        route(input@) == Route::Empty ==> r == Err::<String, ResolveError>(ResolveError::EmptyInput),
        route(input@) != Route::Empty ==> (r matches Ok(u) && u@ == resolved(input@, engine)),
{
    let cs = chars_of(input);
    let t = trim_chars(&cs);
    proof {
        lemma_trimmed_idempotent(input@);
    }
    let rt = route_of(&t);
    match rt {
        Route::Empty => Err(ResolveError::EmptyInput),
        Route::Direct => Ok(string_from(&t)),
        Route::BareHost => {
            let mut out = owned("https://");
            let rest = string_from(&t);
            push_str(&mut out, rest.as_str());
            Ok(out)
        },
        Route::Search => {
            let q = string_from(&t);
            Ok(engine.search_url(q.as_str()))
        },
    }
}

/// Trimming twice trims nothing more.
pub proof fn lemma_trimmed_idempotent(s: Seq<char>)
    ensures
        trimmed(trimmed(s)) == trimmed(s),
{
    crate::text::lemma_trimmed_ends(s);
    let t = trimmed(s);
    if t.len() > 0 {
        assert(crate::text::trim_start(t) == t);
        assert(crate::text::trim_end(t) == t);
    }
}

/// Match the same heuristic as `resolve_url`: anything that isn't a URL
/// (scheme or bare host) counts as a search query.
pub fn looks_like_search_query(input: &str) -> (b: bool)
    ensures
        b == (route(input@) == Route::Search),
{
    let cs = chars_of(input);
    let t = trim_chars(&cs);
    proof {
        lemma_trimmed_idempotent(input@);
    }
    route_of(&t) == Route::Search
}

/// What counts as a search query is exactly what `resolve_url` sends to the
/// search engine, and what it sends there is the engine's search URL for
/// the trimmed input.
pub proof fn lemma_search_query_goes_to_engine(input: Seq<char>, engine: SearchEngine)
    ensures
        route(input) == Route::Search ==> resolved(input, engine) == search_prefix(engine)
            + form_encode(encode_utf8(trimmed(input))),
        route(input) != Route::Search ==> (route(input) == Route::Empty || resolved(input, engine)
            == trimmed(input) || resolved(input, engine) == "https://"@ + trimmed(input)),
{
}

/// Label of a tab's webview.
pub open spec fn tab_label_spec(id: u64) -> Seq<char> {
    "browse-"@ + decimal(id as nat)
}

/// Webview label of tab `id`.
pub fn tab_label(id: u64) -> (r: String)
    ensures
        r@ == tab_label_spec(id),
{
    let mut out = owned("browse-");
    let n = u64_to_decimal(id);
    push_str(&mut out, n.as_str());
    out
}

/// Distinct tabs get distinct webview labels.
pub proof fn lemma_tab_label_unique(a: u64, b: u64)
    ensures
        tab_label_spec(a) == tab_label_spec(b) ==> a == b,
{
    if tab_label_spec(a) == tab_label_spec(b) {
        let p = "browse-"@;
        assert(decimal(a as nat) =~= tab_label_spec(a).skip(p.len() as int));
        assert(decimal(b as nat) =~= tab_label_spec(b).skip(p.len() as int));
        lemma_decimal_injective(a as nat, b as nat);
    }
}

/// A tab's title until the page reports its own: "New tab" for a
/// `data:` page, `about:<path>` for an `about:` page, else the host
/// without its leading `www.`s, else the URL as the parser writes it
/// (as given, when it does not parse).
pub open spec fn host_title_of(url: Seq<char>) -> Seq<char> {
    if parsed_scheme(url) == Some("data"@) {
        "New tab"@
    } else if parsed_scheme(url) == Some("about"@) {
        "about:"@ + match parsed_path(url) {
            Some(p) => p,
            None => Seq::empty(),
        }
    } else {
        match parsed_host(url) {
            Some(h) => strip_www(h),
            None => match serialized(url) {
                Some(s) => s,
                None => url,
            },
        }
    }
}

/// The provisional title of a tab showing `url`.
pub fn host_title(url: &str) -> (r: String)
    ensures
        r@ == host_title_of(url@),
{
    let scheme = url_scheme(url);
    let is_data = match &scheme {
        Some(s) => str_eq(s.as_str(), "data"),
        None => false,
    };
    if is_data {
        return owned("New tab");
    }
    let is_about = match &scheme {
        Some(s) => str_eq(s.as_str(), "about"),
        None => false,
    };
    if is_about {
        let mut t = owned("about:");
        if let Some(p) = url_path(url) {
            push_str(&mut t, p.as_str());
        }
        return t;
    }
    match url_host(url) {
        Some(h) => trim_www(h.as_str()),
        None => match url_serialized(url) {
            Some(s) => s,
            None => owned(url),
        },
    }
}

/// A character of a find-in-page query inside a single-quoted script
/// string: backslashes and single quotes escaped.
pub open spec fn js_char(c: char) -> Seq<char> {
    if c == '\\' {
        seq!['\\', '\\']
    } else if c == '\'' {
        seq!['\\', '\'']
    } else {
        seq![c]
    }
}

/// The script that searches the page for `query` (backwards when not
/// `forward`), wrapping around and highlighting the match.
pub open spec fn find_script(query: Seq<char>, forward: bool) -> Seq<char> {
    "window.find && window.find('"@ + concat_map(query, |c: char| js_char(c)) + "', false, "@ + (if forward {
        "false"@
    } else {
        "true"@
    }) + ", true, false, true, false)"@
}

/// The find-in-page script for `query`.
pub fn find_in_page_script(query: &str, forward: bool) -> (r: String)
    ensures
        r@ == find_script(query@, forward),
{
    let cs = chars_of(query);
    let ghost f = |c: char| js_char(c);
    let mut esc = String::new();
    let mut i: usize = 0;
    assert(cs@.take(0) =~= Seq::<char>::empty());
    while i < cs.len()
        invariant
            0 <= i <= cs@.len(),
            cs@ == query@,
            f == (|c: char| js_char(c)),
            esc@ == concat_map(cs@.take(i as int), f),
        decreases cs.len() - i,
    {
        let c = cs[i];
        proof {
            lemma_concat_map_step(cs@, i as int, f);
        }
        if c == '\\' || c == '\'' {
            push_char(&mut esc, '\\');
        }
        push_char(&mut esc, c);
        assert(esc@ =~= concat_map(cs@.take(i + 1), f));
        i += 1;
    }
    assert(cs@.take(cs@.len() as int) =~= cs@);
    let mut out = owned("window.find && window.find('");
    push_str(&mut out, esc.as_str());
    push_str(&mut out, "', false, ");
    push_str(&mut out, if forward {
        "false"
    } else {
        "true"
    });
    push_str(&mut out, ", true, false, true, false)");
    out
}

/// Where popup webviews load the shell's UI from: the dev server in a
/// debug build, the bundled app otherwise.
pub fn popup_base(debug_build: bool) -> (r: &'static str)
    ensures
        r@ == if debug_build {
            "http://localhost:1420"@
        } else {
            "http://tauri.localhost"@
        },
{
    if debug_build {
        "http://localhost:1420"
    } else {
        "http://tauri.localhost"
    }
}

/// `(key, value)`, owned.
fn pair(k: &str, v: &str) -> (r: (String, String))
    ensures
        r.0@ == k@,
        r.1@ == v@,
{
    (owned(k), owned(v))
}

/// The site-scan popup's query: `panel=trust`, the page's URL and tab.
pub open spec fn trust_panel_pairs(url: Seq<char>, tab: Seq<char>) -> Seq<(Seq<char>, Seq<char>)> {
    seq![("panel"@, "trust"@), ("url"@, url), ("tab"@, tab)]
}

/// The URL the site-scan popup loads for the page `url` in tab `tab`.
pub fn trust_panel_url(debug_build: bool, url: &str, tab: &str) -> (r: Option<String>)
    ensures
        opt_view(r) == with_query(
            if debug_build {
                "http://localhost:1420"@
            } else {
                "http://tauri.localhost"@
            },
            trust_panel_pairs(url@, tab@),
        ),
{
    let mut pairs: Vec<(String, String)> = Vec::new();
    pairs.push(pair("panel", "trust"));
    pairs.push(pair("url", url));
    pairs.push(pair("tab", tab));
    assert(pair_views(pairs@) =~= trust_panel_pairs(url@, tab@));
    url_with_query(popup_base(debug_build), &pairs)
}

/// A stored flag as a query value.
pub open spec fn flag_text(b: bool) -> Seq<char> {
    if b {
        "1"@
    } else {
        "0"@
    }
}

/// The menu popup's query: `panel=menu`, its kind, then the view, the
/// browsing flag and the bookmarked flag when given.
pub open spec fn menu_popup_pairs(
    kind: Seq<char>,
    view: Option<Seq<char>>,
    browsing: Option<bool>,
    bookmarked: Option<bool>,
) -> Seq<(Seq<char>, Seq<char>)> {
    seq![("panel"@, "menu"@), ("kind"@, kind)] + (match view {
        Some(v) => seq![("view"@, v)],
        None => Seq::empty(),
    }) + (match browsing {
        Some(b) => seq![("browsing"@, flag_text(b))],
        None => Seq::empty(),
    }) + (match bookmarked {
        Some(b) => seq![("bookmarked"@, flag_text(b))],
        None => Seq::empty(),
    })
}

/// The URL a menu popup of `kind` loads.
pub fn menu_popup_url(
    debug_build: bool,
    kind: &str,
    view: Option<&str>,
    browsing: Option<bool>,
    bookmarked: Option<bool>,
) -> (r: Option<String>)
    ensures
        opt_view(r) == with_query(
            if debug_build {
                "http://localhost:1420"@
            } else {
                "http://tauri.localhost"@
            },
            menu_popup_pairs(
                kind@,
                match view {
                    Some(v) => Some(v@),
                    None => None,
                },
                browsing,
                bookmarked,
            ),
        ),
{
    let mut pairs: Vec<(String, String)> = Vec::new();
    pairs.push(pair("panel", "menu"));
    pairs.push(pair("kind", kind));
    let ghost p2 = pair_views(pairs@);
    if let Some(v) = view {
        pairs.push(pair("view", v));
    }
    let ghost p3 = pair_views(pairs@);
    if let Some(b) = browsing {
        pairs.push(pair("browsing", if b {
            "1"
        } else {
            "0"
        }));
    }
    let ghost p4 = pair_views(pairs@);
    if let Some(b) = bookmarked {
        pairs.push(pair("bookmarked", if b {
            "1"
        } else {
            "0"
        }));
    }
    proof {
        let vv = match view {
            Some(v) => Some(v@),
            None => None,
        };
        assert(p2 =~= seq![("panel"@, "menu"@), ("kind"@, kind@)]);
        assert(p3 =~= p2 + (match vv {
            Some(v) => seq![("view"@, v)],
            None => Seq::<(Seq<char>, Seq<char>)>::empty(),
        }));
        assert(p4 =~= p3 + (match browsing {
            Some(b) => seq![("browsing"@, flag_text(b))],
            None => Seq::<(Seq<char>, Seq<char>)>::empty(),
        }));
        assert(pair_views(pairs@) =~= p4 + (match bookmarked {
            Some(b) => seq![("bookmarked"@, flag_text(b))],
            None => Seq::<(Seq<char>, Seq<char>)>::empty(),
        }));
        assert(pair_views(pairs@) =~= menu_popup_pairs(kind@, vv, browsing, bookmarked));
    }
    url_with_query(popup_base(debug_build), &pairs)
}

/// Whether asking for a menu popup closes it instead: the open menu
/// popup (at `open_url`) is already of that `kind`.
pub fn menu_toggles_off(open_url: Option<&str>, kind: &str) -> (r: bool)
    ensures
        r == (open_url matches Some(u) && parsed_query_pairs(u@) matches Some(ps) && first_value(
            ps,
            "kind"@,
        ) == Some(kind@)),
{
    match open_url {
        Some(u) => match url_query_pairs(u) {
            Some(ps) => match find_value(&ps, "kind") {
                Some(k) => str_eq(k.as_str(), kind),
                None => false,
            },
            None => false,
        },
        None => false,
    }
}

/// Metadata shown to the UI. Title is a host-derived best guess until we wire
/// up navigation events in a follow-up.
#[derive(Debug)]
pub struct TabInfo {
    pub id: u64,
    pub url: String,
    pub title: String,
    /// `true` while the webview is navigating or loading the current page.
    pub loading: bool,
    /// `true` for tabs opened in private mode: not recorded in history and
    /// not persisted to the session file.
    pub private: bool,
}

impl Clone for TabInfo {
    fn clone(&self) -> (r: Self)
        ensures
            r == *self,
    {
        TabInfo {
            id: self.id,
            url: self.url.clone(),
            title: self.title.clone(),
            loading: self.loading,
            private: self.private,
        }
    }
}

/// `i` is the position of the first tab with `id`.
pub open spec fn first_tab(tabs: Seq<TabInfo>, id: u64, i: int) -> bool {
    &&& 0 <= i < tabs.len()
    &&& tabs[i].id == id
    &&& forall|k: int| 0 <= k < i ==> tabs[k].id != id
}

/// A `data:` or `about:` page, which never replaces what a tab shows.
pub open spec fn internal_page(url: Seq<char>) -> bool {
    has_prefix(url, "data:"@) || has_prefix(url, "about:"@)
}

/// The record of a tab just opened on `url`: loading unless `url` is a
/// `data:` page.
pub fn opened_tab(id: u64, url: String, title: String, private: bool) -> (t: TabInfo)
    ensures
        t.id == id,
        t.url == url,
        t.title == title,
        t.loading == !has_prefix(url@, "data:"@),
        t.private == private,
{
    let cs = chars_of(url.as_str());
    let loading = !starts_with(&cs, "data:");
    TabInfo { id, url, title, loading, private }
}

/// The title a URL-bar navigation gives its tab: `Search: <input>` for a
/// results page rendered in place (a `data:` target while metasearch is
/// on), else the provisional title of the target.
pub fn navigation_title(target: &str, input: &str, metasearch_on: bool) -> (r: String)
    ensures
        r@ == if has_prefix(target@, "data:"@) && metasearch_on {
            "Search: "@ + trimmed(input@)
        } else {
            host_title_of(target@)
        },
{
    let cs = chars_of(target);
    if starts_with(&cs, "data:") && metasearch_on {
        let mut t = owned("Search: ");
        let q = string_from(&trim_chars(&chars_of(input)));
        push_str(&mut t, q.as_str());
        t
    } else {
        host_title(target)
    }
}

/// Keeps every tab but `id`.
pub open spec fn not_id(id: u64) -> spec_fn(TabInfo) -> bool {
    |t: TabInfo| t.id != id
}

/// Snapshot of the tab strip handed to the UI.
#[derive(Debug)]
pub struct TabsView {
    pub tabs: Vec<TabInfo>,
    pub active_id: Option<u64>,
}

/// The open tabs, in the order they were opened, and which one is active.
#[derive(Debug, Default)]
pub struct TabsState {
    next_id: u64,
    active_id: Option<u64>,
    tabs: Vec<TabInfo>,
}

impl TabsState {
    /// Last id handed out (0 before the first).
    pub closed spec fn last_id(&self) -> u64 {
        self.next_id
    }

    /// The tabs, in opening order.
    pub closed spec fn tab_seq(&self) -> Seq<TabInfo> {
        self.tabs@
    }

    /// The active tab's id, if any.
    pub closed spec fn active(&self) -> Option<u64> {
        self.active_id
    }

    /// A fresh state: no tabs, nothing active, no id issued yet.
    pub fn new() -> (s: Self)
        ensures
            s.last_id() == 0,
            s.tab_seq() == Seq::<TabInfo>::empty(),
            s.active() == None::<u64>,
    {
        TabsState { next_id: 0, active_id: None, tabs: Vec::new() }
    }

    /// Reserve the next tab id: one more than the last one issued.
    pub fn issue_id(&mut self) -> (id: u64)
        requires
            old(self).last_id() < u64::MAX,
        ensures
            id == old(self).last_id() + 1,
            final(self).last_id() == id,
            final(self).tab_seq() == old(self).tab_seq(),
            final(self).active() == old(self).active(),
    {
        self.next_id += 1;
        self.next_id
    }

    /// Id of the tab at position `idx` (the order they were opened in).
    /// Used by session-restore to re-activate the right tab after all
    /// saved URLs have been reopened.
    pub fn id_at(&self, idx: usize) -> (r: Option<u64>)
        ensures
            r == if idx < self.tab_seq().len() {
                Some(self.tab_seq()[idx as int].id)
            } else {
                None::<u64>
            },
    {
        if idx < self.tabs.len() {
            Some(self.tabs[idx].id)
        } else {
            None
        }
    }

    /// Record a newly opened tab and make it the active one.
    pub fn open_tab(&mut self, tab: TabInfo)
        ensures
            final(self).tab_seq() == old(self).tab_seq().push(tab),
            final(self).active() == Some(tab.id),
            final(self).last_id() == old(self).last_id(),
    {
        let id = tab.id;
        self.tabs.push(tab);
        self.active_id = Some(id);
    }

    /// Whether a tab with `id` is open.
    pub fn contains(&self, id: u64) -> (b: bool)
        ensures
            b == exists|i: int| 0 <= i < self.tab_seq().len() && self.tab_seq()[i].id == id,
    {
        let mut i: usize = 0;
        while i < self.tabs.len()
            invariant
                0 <= i <= self.tabs@.len(),
                forall|k: int| 0 <= k < i ==> self.tabs@[k].id != id,
            decreases self.tabs.len() - i,
        {
            if self.tabs[i].id == id {
                assert(self.tabs@[i as int].id == id);
                assert(self.tab_seq()[i as int].id == id);
                return true;
            }
            i += 1;
        }
        false
    }

    /// Activate tab `id`; refused (state unchanged) when no such tab is open.
    pub fn switch_to(&mut self, id: u64) -> (ok: bool)
        ensures
            ok == exists|i: int| 0 <= i < old(self).tab_seq().len() && old(self).tab_seq()[i].id == id,
            final(self).tab_seq() == old(self).tab_seq(),
            final(self).last_id() == old(self).last_id(),
            final(self).active() == if ok {
                Some(id)
            } else {
                old(self).active()
            },
    {
        if self.contains(id) {
            self.active_id = Some(id);
            true
        } else {
            false
        }
    }

    /// Close tab `id`. Closing the active tab promotes the last remaining
    /// one (none when the strip is now empty).
    pub fn close(&mut self, id: u64)
        ensures
            final(self).tab_seq() == old(self).tab_seq().filter(not_id(id)),
            final(self).last_id() == old(self).last_id(),
            final(self).active() == if old(self).active() == Some(id) {
                if final(self).tab_seq().len() == 0 {
                    None::<u64>
                } else {
                    Some(final(self).tab_seq().last().id)
                }
            } else {
                old(self).active()
            },
    {
        let mut kept: Vec<TabInfo> = Vec::new();
        let mut i: usize = 0;
        while i < self.tabs.len()
            invariant
                0 <= i <= self.tabs@.len(),
                kept@ == self.tabs@.take(i as int).filter(not_id(id)),
            decreases self.tabs.len() - i,
        {
            let ghost before = kept@;
            if self.tabs[i].id != id {
                let c = self.tabs[i].clone();
                assert(c == self.tabs@[i as int]);
                kept.push(c);
                assert(kept@ == before.push(self.tabs@[i as int]));
            }
            proof {
                reveal_with_fuel(Seq::<_>::filter, 1);
                let s2 = self.tabs@.take(i + 1);
                assert(s2.drop_last() =~= self.tabs@.take(i as int));
                assert(s2.last() == self.tabs@[i as int]);
                assert(s2.filter(not_id(id)) == if not_id(id)(s2.last()) {
                    s2.drop_last().filter(not_id(id)).push(s2.last())
                } else {
                    s2.drop_last().filter(not_id(id))
                });
                assert(kept@ == s2.filter(not_id(id)));
            }
            i += 1;
        }
        assert(self.tabs@.take(self.tabs@.len() as int) =~= self.tabs@);
        self.tabs = kept;
        if self.active_id == Some(id) {
            let n = self.tabs.len();
            self.active_id = if n == 0 {
                None
            } else {
                Some(self.tabs[n - 1].id)
            };
        }
    }

    /// Snapshot for the UI.
    pub fn view(&self) -> (v: TabsView)
        ensures
            v.tabs@ == self.tab_seq(),
            v.active_id == self.active(),
    {
        let mut tabs: Vec<TabInfo> = Vec::new();
        let mut i: usize = 0;
        while i < self.tabs.len()
            invariant
                0 <= i <= self.tabs@.len(),
                tabs@ == self.tabs@.take(i as int),
            decreases self.tabs.len() - i,
        {
            tabs.push(self.tabs[i].clone());
            assert(self.tabs@.take(i + 1) =~= self.tabs@.take(i as int).push(self.tabs@[i as int]));
            i += 1;
        }
        assert(self.tabs@.take(self.tabs@.len() as int) =~= self.tabs@);
        TabsView { tabs, active_id: self.active_id }
    }

    /// What rebuilding the strip reopens: each tab's URL and privacy, in
    /// order, and the position of the active tab.
    pub fn rebuild_plan(&self) -> (r: (Vec<(String, bool)>, Option<usize>))
        ensures
            r.0@.len() == self.tab_seq().len(),
            forall|i: int|
                0 <= i < r.0@.len() ==> (#[trigger] r.0@[i]).0@ == self.tab_seq()[i].url@ && r.0@[i].1
                    == self.tab_seq()[i].private,
            r.1 matches Some(p) ==> self.active() matches Some(id) && first_tab(self.tab_seq(), id, p as int),
            r.1 is None ==> (self.active() is None || forall|k: int|
                0 <= k < self.tab_seq().len() ==> self.tab_seq()[k].id != self.active()->0),
    {
        let mut plan: Vec<(String, bool)> = Vec::new();
        let mut i: usize = 0;
        while i < self.tabs.len()
            invariant
                0 <= i <= self.tabs@.len(),
                plan@.len() == i,
                forall|k: int|
                    0 <= k < i ==> (#[trigger] plan@[k]).0@ == self.tabs@[k].url@ && plan@[k].1
                        == self.tabs@[k].private,
            decreases self.tabs.len() - i,
        {
            plan.push((owned(self.tabs[i].url.as_str()), self.tabs[i].private));
            i += 1;
        }
        let active = match self.active_id {
            Some(id) => self.position_of(id),
            None => None,
        };
        (plan, active)
    }

    /// Drop every tab and the active mark, keeping the id counter so
    /// reopened tabs get fresh ids.
    pub fn clear_tabs(&mut self)
        ensures
            final(self).tab_seq() == Seq::<TabInfo>::empty(),
            final(self).active() is None,
            final(self).last_id() == old(self).last_id(),
    {
        self.tabs = Vec::new();
        self.active_id = None;
    }

    /// Position of the first tab with `id`.
    fn position_of(&self, id: u64) -> (r: Option<usize>)
        ensures
            r matches Some(i) ==> first_tab(self.tab_seq(), id, i as int),
            r is None ==> forall|k: int| 0 <= k < self.tab_seq().len() ==> self.tab_seq()[k].id != id,
    {
        let mut i: usize = 0;
        while i < self.tabs.len()
            invariant
                0 <= i <= self.tabs@.len(),
                forall|k: int| 0 <= k < i ==> self.tabs@[k].id != id,
            decreases self.tabs.len() - i,
        {
            if self.tabs[i].id == id {
                return Some(i);
            }
            i += 1;
        }
        None
    }

    /// The webview of tab `id` moved to `url` (a redirect, a link, a route
    /// change): unless `url` is a `data:` or `about:` page, the first tab
    /// with that id takes the URL and `title` and starts loading. Nothing
    /// else changes.
    pub fn navigated(&mut self, id: u64, url: &str, title: String)
        ensures
            final(self).last_id() == old(self).last_id(),
            final(self).active() == old(self).active(),
            final(self).tab_seq().len() == old(self).tab_seq().len(),
            forall|i: int|
                first_tab(old(self).tab_seq(), id, i) && !internal_page(url@) ==> {
                    &&& final(self).tab_seq()[i].id == id
                    &&& final(self).tab_seq()[i].url@ == url@
                    &&& final(self).tab_seq()[i].title == title
                    &&& final(self).tab_seq()[i].loading
                    &&& final(self).tab_seq()[i].private == old(self).tab_seq()[i].private
                    &&& forall|k: int|
                        0 <= k < old(self).tab_seq().len() && k != i ==> final(self).tab_seq()[k]
                            == old(self).tab_seq()[k]
                },
            (internal_page(url@) || forall|k: int|
                0 <= k < old(self).tab_seq().len() ==> old(self).tab_seq()[k].id != id)
                ==> final(self).tab_seq() == old(self).tab_seq(),
    {
        let cs = chars_of(url);
        if starts_with(&cs, "data:") || starts_with(&cs, "about:") {
            return;
        }
        if let Some(i) = self.position_of(id) {
            let old_tab = self.tabs[i].clone();
            let t = TabInfo { id: old_tab.id, url: owned(url), title, loading: true, private: old_tab.private };
            self.tabs.set(i, t);
        }
    }

    /// The page in tab `id` finished loading: the first tab with that id
    /// stops loading. Nothing else changes.
    pub fn page_loaded(&mut self, id: u64)
        ensures
            final(self).last_id() == old(self).last_id(),
            final(self).active() == old(self).active(),
            final(self).tab_seq().len() == old(self).tab_seq().len(),
            forall|i: int|
                first_tab(old(self).tab_seq(), id, i) ==> final(self).tab_seq() == old(self).tab_seq().update(
                    i,
                    TabInfo { loading: false, ..old(self).tab_seq()[i] },
                ),
            (forall|k: int| 0 <= k < old(self).tab_seq().len() ==> old(self).tab_seq()[k].id != id)
                ==> final(self).tab_seq() == old(self).tab_seq(),
    {
        if let Some(i) = self.position_of(id) {
            let mut t = self.tabs[i].clone();
            t.loading = false;
            self.tabs.set(i, t);
        }
    }

    /// The active tab `id` was sent to `url` from the URL bar: the first
    /// tab with that id takes the URL and `title`. Says whether that tab is
    /// private (`false` when there is none), so the caller knows whether to
    /// record the visit.
    pub fn retarget(&mut self, id: u64, url: &str, title: String) -> (private: bool)
        ensures
            final(self).last_id() == old(self).last_id(),
            final(self).active() == old(self).active(),
            final(self).tab_seq().len() == old(self).tab_seq().len(),
            forall|i: int|
                first_tab(old(self).tab_seq(), id, i) ==> {
                    &&& private == old(self).tab_seq()[i].private
                    &&& final(self).tab_seq()[i].id == id
                    &&& final(self).tab_seq()[i].url@ == url@
                    &&& final(self).tab_seq()[i].title == title
                    &&& final(self).tab_seq()[i].loading == old(self).tab_seq()[i].loading
                    &&& final(self).tab_seq()[i].private == old(self).tab_seq()[i].private
                    &&& forall|k: int|
                        0 <= k < old(self).tab_seq().len() && k != i ==> final(self).tab_seq()[k]
                            == old(self).tab_seq()[k]
                },
            (forall|k: int| 0 <= k < old(self).tab_seq().len() ==> old(self).tab_seq()[k].id != id)
                ==> final(self).tab_seq() == old(self).tab_seq() && !private,
    {
        match self.position_of(id) {
            Some(i) => {
                let old_tab = self.tabs[i].clone();
                let private = old_tab.private;
                let t = TabInfo {
                    id: old_tab.id,
                    url: owned(url),
                    title,
                    loading: old_tab.loading,
                    private,
                };
                self.tabs.set(i, t);
                private
            },
            None => false,
        }
    }
}

} // verus!
