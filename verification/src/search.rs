//! Search engine picker: the supported engines, their URLs, and how the
//! stored `search_engine` / flag settings decode.

use vstd::prelude::*;
use vstd::string::StringSliceAdditionalSpecFns;

use crate::text::{
    byte_hex_upper, chars_of, eq_ignore_ascii_case, hex_digit_upper, lower, owned, push_char,
    push_str, str_eq,
};

verus! {

/// Supported privacy-aligned search engines. All of these honor
/// Do-Not-Track and do not require accounts. Ahmia indexes `.onion`
/// sites; result pages load on clearnet but the links require Tor
/// turned on to follow.
#[derive(Debug, Clone, Copy, PartialEq, Eq, Structural, Default)]
pub enum SearchEngine {
    #[default]
    DuckDuckGo,
    Brave,
    Startpage,
    Mojeek,
    Kagi,
    Ecosia,
    Ahmia,
}

/// Stock Tor daemon SOCKS5 port. Tor Browser uses 9150.
pub const DEFAULT_TOR_SOCKS5: &'static str = "127.0.0.1:9050";

/// Stable id stored in the settings table.
pub open spec fn engine_id(e: SearchEngine) -> Seq<char> {
    match e {
        SearchEngine::DuckDuckGo => "duckduckgo"@,
        SearchEngine::Brave => "brave"@,
        SearchEngine::Startpage => "startpage"@,
        SearchEngine::Mojeek => "mojeek"@,
        SearchEngine::Kagi => "kagi"@,
        SearchEngine::Ecosia => "ecosia"@,
        SearchEngine::Ahmia => "ahmia"@,
    }
}

/// Human-readable engine name.
pub open spec fn engine_name(e: SearchEngine) -> Seq<char> {
    match e {
        SearchEngine::DuckDuckGo => "DuckDuckGo"@,
        SearchEngine::Brave => "Brave Search"@,
        SearchEngine::Startpage => "Startpage"@,
        SearchEngine::Mojeek => "Mojeek"@,
        SearchEngine::Kagi => "Kagi"@,
        SearchEngine::Ecosia => "Ecosia"@,
        SearchEngine::Ahmia => "Ahmia (.onion)"@,
    }
}

/// Search URL up to (and including) `q=`.
pub open spec fn search_prefix(e: SearchEngine) -> Seq<char> {
    match e {
        SearchEngine::DuckDuckGo => "https://duckduckgo.com/?q="@,
        SearchEngine::Brave => "https://search.brave.com/search?q="@,
        SearchEngine::Startpage => "https://www.startpage.com/do/search?q="@,
        SearchEngine::Mojeek => "https://www.mojeek.com/search?q="@,
        SearchEngine::Kagi => "https://kagi.com/search?q="@,
        SearchEngine::Ecosia => "https://www.ecosia.org/search?q="@,
        SearchEngine::Ahmia => "https://ahmia.fi/search/?q="@,
    }
}

/// Home page of an engine.
pub open spec fn engine_home(e: SearchEngine) -> Seq<char> {
    match e {
        SearchEngine::DuckDuckGo => "https://duckduckgo.com"@,
        SearchEngine::Brave => "https://search.brave.com"@,
        SearchEngine::Startpage => "https://www.startpage.com"@,
        SearchEngine::Mojeek => "https://www.mojeek.com"@,
        SearchEngine::Kagi => "https://kagi.com"@,
        SearchEngine::Ecosia => "https://www.ecosia.org"@,
        SearchEngine::Ahmia => "https://ahmia.fi"@,
    }
}

/// Host of the engine's search URL.
pub open spec fn engine_host(e: SearchEngine) -> Seq<char> {
    match e {
        SearchEngine::DuckDuckGo => "duckduckgo.com"@,
        SearchEngine::Brave => "search.brave.com"@,
        SearchEngine::Startpage => "www.startpage.com"@,
        SearchEngine::Mojeek => "www.mojeek.com"@,
        SearchEngine::Kagi => "kagi.com"@,
        SearchEngine::Ecosia => "www.ecosia.org"@,
        SearchEngine::Ahmia => "ahmia.fi"@,
    }
}

/// The engine a stored id names, if any.
pub open spec fn engine_of_id(id: Seq<char>) -> Option<SearchEngine> {
    if id == "duckduckgo"@ {
        Some(SearchEngine::DuckDuckGo)
    } else if id == "brave"@ {
        Some(SearchEngine::Brave)
    } else if id == "startpage"@ {
        Some(SearchEngine::Startpage)
    } else if id == "mojeek"@ {
        Some(SearchEngine::Mojeek)
    } else if id == "kagi"@ {
        Some(SearchEngine::Kagi)
    } else if id == "ecosia"@ {
        Some(SearchEngine::Ecosia)
    } else if id == "ahmia"@ {
        Some(SearchEngine::Ahmia)
    } else {
        None
    }
}

/// Every engine, in picker order.
pub open spec fn all_engines() -> Seq<SearchEngine> {
    seq![
        SearchEngine::DuckDuckGo,
        SearchEngine::Brave,
        SearchEngine::Startpage,
        SearchEngine::Mojeek,
        SearchEngine::Kagi,
        SearchEngine::Ecosia,
        SearchEngine::Ahmia,
    ]
}

/// Bytes `application/x-www-form-urlencoded` leaves unescaped.
pub open spec fn is_unreserved(b: u8) -> bool {
    (65 <= b <= 90) || (97 <= b <= 122) || (48 <= b <= 57) || b == 45 || b == 95 || b == 46 || b
        == 126
}

/// Encoding of one byte of the query.
pub open spec fn encoded_byte(b: u8) -> Seq<char> {
    if is_unreserved(b) {
        seq![b as char]
    } else if b == 32 {
        seq!['+']
    } else {
        seq!['%'] + byte_hex_upper(b)
    }
}

/// Form-encoding of a byte string: unreserved bytes pass, space becomes
/// `+`, every other byte becomes `%XX` (uppercase hex).
pub open spec fn form_encode(bs: Seq<u8>) -> Seq<char>
    decreases bs.len(),
{
    if bs.len() == 0 {
        Seq::empty()
    } else {
        form_encode(bs.drop_last()) + encoded_byte(bs.last())
    }
}

impl SearchEngine {
    pub fn id(self) -> (r: &'static str)
        ensures
            r@ == engine_id(self),
    {
        match self {
            Self::DuckDuckGo => "duckduckgo",
            Self::Brave => "brave",
            Self::Startpage => "startpage",
            Self::Mojeek => "mojeek",
            Self::Kagi => "kagi",
            Self::Ecosia => "ecosia",
            Self::Ahmia => "ahmia",
        }
    }

    pub fn display_name(self) -> (r: &'static str)
        ensures
            r@ == engine_name(self),
    {
        match self {
            Self::DuckDuckGo => "DuckDuckGo",
            Self::Brave => "Brave Search",
            Self::Startpage => "Startpage",
            Self::Mojeek => "Mojeek",
            Self::Kagi => "Kagi",
            Self::Ecosia => "Ecosia",
            Self::Ahmia => "Ahmia (.onion)",
        }
    }

    /// Build a search URL for the given query. Query is URL-encoded here.
    pub fn search_url(self, query: &str) -> (r: String)
        ensures
            r@ == search_prefix(self) + form_encode(query.spec_bytes()),
    {
        let prefix = match self {
            Self::DuckDuckGo => "https://duckduckgo.com/?q=",
            Self::Brave => "https://search.brave.com/search?q=",
            Self::Startpage => "https://www.startpage.com/do/search?q=",
            Self::Mojeek => "https://www.mojeek.com/search?q=",
            Self::Kagi => "https://kagi.com/search?q=",
            Self::Ecosia => "https://www.ecosia.org/search?q=",
            Self::Ahmia => "https://ahmia.fi/search/?q=",
        };
        let mut out = owned(prefix);
        url_encode_into(&mut out, query);
        out
    }

    /// Home page URL suitable for opening in a new tab.
    pub fn home_url(self) -> (r: &'static str)
        ensures
            r@ == engine_home(self),
    {
        match self {
            Self::DuckDuckGo => "https://duckduckgo.com",
            Self::Brave => "https://search.brave.com",
            Self::Startpage => "https://www.startpage.com",
            Self::Mojeek => "https://www.mojeek.com",
            Self::Kagi => "https://kagi.com",
            Self::Ecosia => "https://www.ecosia.org",
            Self::Ahmia => "https://ahmia.fi",
        }
    }

    pub fn from_id(id: &str) -> (r: Option<Self>)
        ensures
            r == engine_of_id(id@),
    {
        if str_eq(id, "duckduckgo") {
            Some(Self::DuckDuckGo)
        } else if str_eq(id, "brave") {
            Some(Self::Brave)
        } else if str_eq(id, "startpage") {
            Some(Self::Startpage)
        } else if str_eq(id, "mojeek") {
            Some(Self::Mojeek)
        } else if str_eq(id, "kagi") {
            Some(Self::Kagi)
        } else if str_eq(id, "ecosia") {
            Some(Self::Ecosia)
        } else if str_eq(id, "ahmia") {
            Some(Self::Ahmia)
        } else {
            None
        }
    }

    pub fn all() -> (r: &'static [SearchEngine])
        ensures
            r@ == all_engines(),
    {
        let r: &'static [SearchEngine] = &[
            Self::DuckDuckGo,
            Self::Brave,
            Self::Startpage,
            Self::Mojeek,
            Self::Kagi,
            Self::Ecosia,
            Self::Ahmia,
        ];
        assert(r@ =~= all_engines());
        r
    }

    /// Host for this search engine's main search URL. Used by the proxy to
    /// carve out an always-allow rule - a contextual EasyList line without
    /// the `$third-party` guard otherwise blocks the user's own search.
    pub fn host(self) -> (r: &'static str)
        ensures
            r@ == engine_host(self),
    {
        match self {
            Self::DuckDuckGo => "duckduckgo.com",
            Self::Brave => "search.brave.com",
            Self::Startpage => "www.startpage.com",
            Self::Mojeek => "www.mojeek.com",
            Self::Kagi => "kagi.com",
            Self::Ecosia => "www.ecosia.org",
            Self::Ahmia => "ahmia.fi",
        }
    }
}

/// Every engine's stored id names that engine again.
pub proof fn lemma_engine_id_round_trip(e: SearchEngine)
    ensures
        engine_of_id(engine_id(e)) == Some(e),
{
    reveal_strlit("duckduckgo");
    reveal_strlit("brave");
    reveal_strlit("startpage");
    reveal_strlit("mojeek");
    reveal_strlit("kagi");
    reveal_strlit("ecosia");
    reveal_strlit("ahmia");
    let ids = seq!["duckduckgo"@, "brave"@, "startpage"@, "mojeek"@, "kagi"@, "ecosia"@, "ahmia"@];
    assert(ids[0].len() == 10 && ids[1].len() == 5 && ids[2].len() == 9 && ids[3].len() == 6
        && ids[4].len() == 4 && ids[5].len() == 6 && ids[6].len() == 5);
    assert(ids[1][0] == 'b' && ids[6][0] == 'a' && ids[3][0] == 'm' && ids[5][0] == 'e');
}

/// Hosts that are always allowed through the filter regardless of blocklist
/// rules. Prevents the classic overblock where a `?q=` rule meant for
/// trackers blocks the user's legitimate search.
pub fn always_allowed_hosts() -> (r: Vec<&'static str>)
    ensures
        r@.len() == all_engines().len(),
        forall|i: int| 0 <= i < r@.len() ==> (#[trigger] r@[i])@ == engine_host(all_engines()[i]),
{
    let all = SearchEngine::all();
    let mut out: Vec<&'static str> = Vec::new();
    let mut i: usize = 0;
    while i < all.len()
        invariant
            all@ == all_engines(),
            0 <= i <= all@.len(),
            out@.len() == i,
            forall|k: int| 0 <= k < i ==> (#[trigger] out@[k])@ == engine_host(all_engines()[k]),
        decreases all.len() - i,
    {
        out.push(all[i].host());
        i += 1;
    }
    out
}

/// Append the form-encoding of `s`'s UTF-8 bytes.
pub fn url_encode_into(out: &mut String, s: &str)
    ensures
        final(out)@ == old(out)@ + form_encode(s.spec_bytes()),
{
    let bs = s.as_bytes();
    let ghost start = out@;
    let mut i: usize = 0;
    assert(bs@.take(0) =~= Seq::<u8>::empty());
    assert(start + form_encode(bs@.take(0)) =~= start);
    while i < bs.len()
        invariant
            0 <= i <= bs@.len(),
            bs@ == s.spec_bytes(),
            out@ == start + form_encode(bs@.take(i as int)),
        decreases bs.len() - i,
    {
        let b = bs[i];
        assert(bs@.take(i + 1).drop_last() =~= bs@.take(i as int));
        if (65 <= b && b <= 90) || (97 <= b && b <= 122) || (48 <= b && b <= 57) || b == 45 || b
            == 95 || b == 46 || b == 126 {
            push_char(out, b as char);
            assert(out@ =~= start + form_encode(bs@.take(i + 1)));
        } else if b == 32 {
            push_char(out, '+');
            assert(out@ =~= start + form_encode(bs@.take(i + 1)));
        } else {
            push_char(out, '%');
            push_char(out, hex_digit_upper(b / 16));
            push_char(out, hex_digit_upper(b % 16));
            assert(out@ =~= start + form_encode(bs@.take(i + 1)));
        }
        i += 1;
    }
    assert(bs@.take(bs@.len() as int) =~= bs@);
}

/// Form-encode a string (`url_encode`).
pub fn url_encode(s: &str) -> (r: String)
    ensures
        r@ == form_encode(s.spec_bytes()),
{
    let mut out = String::new();
    url_encode_into(&mut out, s);
    assert(Seq::<char>::empty() + form_encode(s.spec_bytes()) =~= form_encode(s.spec_bytes()));
    out
}

// ---------------------------------------------------------------------
// Decoding of the persisted settings
// ---------------------------------------------------------------------

/// Stored boolean flag: `"1"` or any casing of `"true"` is on.
pub open spec fn flag_on(v: Seq<char>) -> bool {
    v == "1"@ || lower(v) == lower("true"@)
}

/// The engine a stored `search_engine` value selects: the named engine,
/// else the default (DuckDuckGo), also when nothing is stored.
pub fn engine_setting(stored: Option<&str>) -> (r: SearchEngine)
    ensures
        r == match stored {
            Some(v) => match engine_of_id(v@) {
                Some(e) => e,
                None => SearchEngine::DuckDuckGo,
            },
            None => SearchEngine::DuckDuckGo,
        },
{
    match stored {
        Some(v) => match SearchEngine::from_id(v) {
            Some(e) => e,
            None => SearchEngine::DuckDuckGo,
        },
        None => SearchEngine::DuckDuckGo,
    }
}

/// A stored boolean flag (`metasearch`, `tor_enabled`, `tor_builtin`);
/// off when nothing is stored.
pub fn flag_setting(stored: Option<&str>) -> (r: bool)
    ensures
        r == match stored {
            Some(v) => flag_on(v@),
            None => false,
        },
{
    match stored {
        Some(v) => str_eq(v, "1") || eq_ignore_ascii_case(v, "true"),
        None => false,
    }
}

/// Stored `mobile_ua`: only `"mobile"` means mobile; anything else,
/// or nothing, means desktop.
pub fn mobile_ua_setting(stored: Option<&str>) -> (r: bool)
    ensures
        r == match stored {
            Some(v) => v@ == "mobile"@,
            None => false,
        },
{
    match stored {
        Some(v) => str_eq(v, "mobile"),
        None => false,
    }
}

/// Stored `tor_proxy_addr`, falling back to the stock Tor SOCKS port when
/// missing or empty.
pub fn tor_proxy_addr_setting(stored: Option<&str>) -> (r: String)
    ensures
        r@ == match stored {
            Some(v) => if v@.len() > 0 {
                v@
            } else {
                DEFAULT_TOR_SOCKS5@
            },
            None => DEFAULT_TOR_SOCKS5@,
        },
{
    match stored {
        Some(v) => {
            if v.is_empty() {
                owned(DEFAULT_TOR_SOCKS5)
            } else {
                owned(v)
            }
        },
        None => owned(DEFAULT_TOR_SOCKS5),
    }
}

/// Value stored for a boolean flag.
pub fn flag_value(enabled: bool) -> (r: &'static str)
    ensures
        r@ == if enabled {
            "1"@
        } else {
            "0"@
        },
{
    if enabled {
        "1"
    } else {
        "0"
    }
}

/// Value stored for the mobile user-agent toggle.
pub fn mobile_ua_value(mobile: bool) -> (r: &'static str)
    ensures
        r@ == if mobile {
            "mobile"@
        } else {
            "desktop"@
        },
{
    if mobile {
        "mobile"
    } else {
        "desktop"
    }
}

/// Keys a settings backup may restore; anything else in a (possibly
/// tampered) backup is ignored.
pub open spec fn restorable_key(k: Seq<char>) -> bool {
    k == "search_engine"@ || k == "metasearch"@ || k == "mobile_ua"@ || k
        == "desktop_window_width"@ || k == "desktop_window_height"@ || k == "tor_enabled"@ || k
        == "tor_proxy_addr"@ || k == "tor_builtin"@
}

/// Whether a settings backup may restore `key`.
pub fn is_restorable_key(key: &str) -> (r: bool)
    ensures
        r == restorable_key(key@),
{
    str_eq(key, "search_engine") || str_eq(key, "metasearch") || str_eq(key, "mobile_ua")
        || str_eq(key, "desktop_window_width") || str_eq(key, "desktop_window_height") || str_eq(
        key,
        "tor_enabled",
    ) || str_eq(key, "tor_proxy_addr") || str_eq(key, "tor_builtin")
}

// ---------------------------------------------------------------------
// The settings table
// ---------------------------------------------------------------------

/// Code-point order of strings, which is SQLite's byte order of their
/// UTF-8 encodings.
pub open spec fn str_lt(a: Seq<char>, b: Seq<char>) -> bool
    decreases a.len(),
{
    if a.len() == 0 {
        b.len() > 0
    } else if b.len() == 0 {
        false
    } else if a[0] != b[0] {
        (a[0] as u32) < (b[0] as u32)
    } else {
        str_lt(a.drop_first(), b.drop_first())
    }
}

/// `str_lt` never holds of a string and itself.
proof fn lemma_str_lt_irreflexive(a: Seq<char>)
    ensures
        !str_lt(a, a),
    decreases a.len(),
{
    if a.len() > 0 {
        lemma_str_lt_irreflexive(a.drop_first());
    }
}

/// `str_lt` holds at most one way round.
proof fn lemma_str_lt_asymmetric(a: Seq<char>, b: Seq<char>)
    ensures
        str_lt(a, b) ==> !str_lt(b, a),
    decreases a.len(),
{
    if a.len() > 0 && b.len() > 0 && a[0] == b[0] {
        lemma_str_lt_asymmetric(a.drop_first(), b.drop_first());
    }
}

/// Two different strings are ordered one way or the other.
proof fn lemma_str_lt_total(a: Seq<char>, b: Seq<char>)
    ensures
        a != b ==> str_lt(a, b) || str_lt(b, a),
    decreases a.len(),
{
    if a.len() > 0 && b.len() > 0 {
        if a[0] == b[0] {
            lemma_str_lt_total(a.drop_first(), b.drop_first());
            if a.drop_first() == b.drop_first() {
                assert(a =~= seq![a[0]] + a.drop_first());
                assert(b =~= seq![b[0]] + b.drop_first());
            }
        } else {
            vstd::utf8::char_u32_cast(a[0], a[0] as u32);
            vstd::utf8::char_u32_cast(b[0], b[0] as u32);
        }
    } else if a.len() == 0 && b.len() == 0 {
        assert(a =~= b);
    }
}

/// `str_lt` is transitive.
proof fn lemma_str_lt_transitive(a: Seq<char>, b: Seq<char>, c: Seq<char>)
    ensures
        str_lt(a, b) && str_lt(b, c) ==> str_lt(a, c),
    decreases a.len(),
{
    if a.len() > 0 && b.len() > 0 && c.len() > 0 && a[0] == b[0] && b[0] == c[0] {
        lemma_str_lt_transitive(a.drop_first(), b.drop_first(), c.drop_first());
    }
}

/// `str_lt` is a strict total order.
pub proof fn lemma_str_lt_order(a: Seq<char>, b: Seq<char>, c: Seq<char>)
    ensures
        !str_lt(a, a),
        str_lt(a, b) ==> !str_lt(b, a),
        a != b ==> str_lt(a, b) || str_lt(b, a),
        str_lt(a, b) && str_lt(b, c) ==> str_lt(a, c),
{
    lemma_str_lt_irreflexive(a);
    lemma_str_lt_asymmetric(a, b);
    lemma_str_lt_total(a, b);
    lemma_str_lt_transitive(a, b, c);
}

/// `a` sorts before `b`.
fn str_less(a: &[char], b: &[char]) -> (r: bool)
    ensures
        r == str_lt(a@, b@),
{
    let mut i: usize = 0;
    assert(a@.skip(0) =~= a@);
    assert(b@.skip(0) =~= b@);
    while i < a.len() && i < b.len() && a[i] == b[i]
        invariant
            0 <= i <= a@.len(),
            i <= b@.len(),
            str_lt(a@, b@) == str_lt(a@.skip(i as int), b@.skip(i as int)),
        decreases a.len() - i,
    {
        assert(a@.skip(i as int).drop_first() =~= a@.skip(i + 1));
        assert(b@.skip(i as int).drop_first() =~= b@.skip(i + 1));
        i += 1;
    }
    assert(a@.skip(i as int).len() == a@.len() - i);
    if i == a.len() {
        i < b.len()
    } else if i == b.len() {
        false
    } else {
        assert(a@.skip(i as int)[0] == a@[i as int]);
        assert(b@.skip(i as int)[0] == b@[i as int]);
        (a[i] as u32) < (b[i] as u32)
    }
}

/// The keys of the rows are strictly increasing.
pub open spec fn sorted_keys(rows: Seq<(String, String)>) -> bool {
    forall|i: int, j: int| 0 <= i < j < rows.len() ==> str_lt(#[trigger] rows[i].0@, #[trigger] rows[j].0@)
}

/// Some row holds `k`.
pub open spec fn has_row(rows: Seq<(String, String)>, k: Seq<char>) -> bool {
    exists|i: int| 0 <= i < rows.len() && #[trigger] rows[i].0@ == k
}

/// A row holding `k`.
pub open spec fn row_of(rows: Seq<(String, String)>, k: Seq<char>) -> int {
    choose|i: int| 0 <= i < rows.len() && #[trigger] rows[i].0@ == k
}

/// The settings as a map from key to value.
pub open spec fn row_map(rows: Seq<(String, String)>) -> Map<Seq<char>, Seq<char>> {
    Map::new(|k: Seq<char>| has_row(rows, k), |k: Seq<char>| rows[row_of(rows, k)].1@)
}

/// The `search_engine`, `metasearch`, `mobile_ua`, `tor_*` and window-size
/// settings, kept as key/value rows ordered by key, as the settings table
/// holds them. The shell loads the rows and persists every change.
pub struct SearchSettings {
    rows: Vec<(String, String)>,
}

impl View for SearchSettings {
    type V = Map<Seq<char>, Seq<char>>;

    closed spec fn view(&self) -> Map<Seq<char>, Seq<char>> {
        row_map(self.rows@)
    }
}

/// In sorted rows, the row holding a key is the only one.
proof fn lemma_sorted_unique(rows: Seq<(String, String)>, i: int, j: int)
    requires
        sorted_keys(rows),
        0 <= i < rows.len(),
        0 <= j < rows.len(),
        rows[i].0@ == rows[j].0@,
    ensures
        i == j,
{
    if i < j {
        lemma_str_lt_order(rows[i].0@, rows[j].0@, rows[j].0@);
    } else if j < i {
        lemma_str_lt_order(rows[j].0@, rows[i].0@, rows[i].0@);
    }
}

/// The value of row `i` is its key's value in the map.
proof fn lemma_row_value(rows: Seq<(String, String)>, i: int)
    requires
        sorted_keys(rows),
        0 <= i < rows.len(),
    ensures
        row_map(rows).contains_key(rows[i].0@),
        row_map(rows)[rows[i].0@] == rows[i].1@,
{
    let k = rows[i].0@;
    assert(rows[i].0@ == k);
    assert(has_row(rows, k));
    let c = row_of(rows, k);
    lemma_sorted_unique(rows, c, i);
}

impl SearchSettings {
    #[verifier::type_invariant]
    closed spec fn ordered(&self) -> bool {
        sorted_keys(self.rows@)
    }

    /// The rows, ordered by key (`dump_all` hands these out).
    pub closed spec fn rows_view(&self) -> Seq<(Seq<char>, Seq<char>)> {
        self.rows@.map_values(|r: (String, String)| (r.0@, r.1@))
    }

    /// No settings yet.
    pub fn new() -> (r: Self)
        ensures
            r@ == Map::<Seq<char>, Seq<char>>::empty(),
    {
        let r = SearchSettings { rows: Vec::new() };
        assert(r@ =~= Map::<Seq<char>, Seq<char>>::empty());
        r
    }

    /// Where `key` is, or where it would go.
    fn locate(&self, key: &[char]) -> (r: (usize, bool))
        ensures
            r.0 <= self.rows@.len(),
            r.1 ==> r.0 < self.rows@.len() && self.rows@[r.0 as int].0@ == key@,
            !r.1 ==> (forall|i: int| 0 <= i < r.0 ==> str_lt(#[trigger] self.rows@[i].0@, key@)) && (
            forall|i: int| r.0 <= i < self.rows@.len() ==> str_lt(key@, #[trigger] self.rows@[i].0@)),
    {
        proof {
            use_type_invariant(self);
        }
        let mut i: usize = 0;
        while i < self.rows.len()
            invariant
                0 <= i <= self.rows@.len(),
                sorted_keys(self.rows@),
                forall|j: int| 0 <= j < i ==> str_lt(#[trigger] self.rows@[j].0@, key@),
            decreases self.rows.len() - i,
        {
            let k = chars_of(self.rows[i].0.as_str());
            if crate::text::chars_eq(&k, key) {
                return (i, true);
            }
            if !str_less(&k, key) {
                proof {
                    lemma_str_lt_order(self.rows@[i as int].0@, key@, key@);
                    assert forall|j: int| i <= j < self.rows@.len() implies str_lt(
                        key@,
                        #[trigger] self.rows@[j].0@,
                    ) by {
                        if j > i {
                            assert(str_lt(self.rows@[i as int].0@, self.rows@[j].0@));
                            lemma_str_lt_order(key@, self.rows@[i as int].0@, self.rows@[j].0@);
                        }
                    }
                }
                return (i, false);
            }
            i += 1;
        }
        (i, false)
    }

    /// The value stored for `key`.
    fn get(&self, key: &str) -> (r: Option<String>)
        ensures
            match r {
                Some(v) => self@.contains_key(key@) && self@[key@] == v@,
                None => !self@.contains_key(key@),
            },
    {
        proof {
            use_type_invariant(self);
        }
        let kc = chars_of(key);
        let (i, found) = self.locate(&kc);
        if found {
            proof {
                lemma_row_value(self.rows@, i as int);
            }
            Some(owned(self.rows[i].1.as_str()))
        } else {
            proof {
                if self@.contains_key(key@) {
                    let j = choose|j: int| 0 <= j < self.rows@.len() && #[trigger] self.rows@[j].0@ == key@;
                    lemma_str_lt_order(key@, key@, key@);
                    if j < i {
                        assert(str_lt(self.rows@[j].0@, key@));
                    } else {
                        assert(str_lt(key@, self.rows@[j].0@));
                    }
                }
            }
            None
        }
    }

    /// Store `value` under `key`.
    pub fn set(&mut self, key: &str, value: &str)
        ensures
            final(self)@ == old(self)@.insert(key@, value@),
    {
        proof {
            use_type_invariant(&*self);
        }
        let kc = chars_of(key);
        let (i, found) = self.locate(&kc);
        let mut rows: Vec<(String, String)> = Vec::new();
        std::mem::swap(&mut rows, &mut self.rows);
        let ghost before = rows@;
        if found {
            rows.set(i, (owned(key), owned(value)));
            proof {
                assert forall|a: int, b: int| 0 <= a < b < rows@.len() implies str_lt(
                    #[trigger] rows@[a].0@,
                    #[trigger] rows@[b].0@,
                ) by {
                    assert(str_lt(before[a].0@, before[b].0@));
                }
                assert forall|k: Seq<char>| #[trigger] row_map(rows@).contains_key(k) == old(self)@.insert(key@, value@).contains_key(k) by {
                    if row_map(before).contains_key(k) {
                        let j = choose|j: int| 0 <= j < before.len() && #[trigger] before[j].0@ == k;
                        assert(rows@[j].0@ == k);
                    }
                    if row_map(rows@).contains_key(k) {
                        let j = choose|j: int| 0 <= j < rows@.len() && #[trigger] rows@[j].0@ == k;
                        assert(before[j].0@ == k);
                    }
                }
                assert forall|k: Seq<char>| #[trigger] row_map(rows@).contains_key(k) implies row_map(rows@)[k] == old(self)@.insert(key@, value@)[k] by {
                    let j = choose|j: int| 0 <= j < rows@.len() && #[trigger] rows@[j].0@ == k;
                    lemma_row_value(rows@, j);
                    assert(row_map(rows@)[k] == rows@[j].1@);
                    if k != key@ {
                        assert(j != i);
                        assert(rows@[j] == before[j]);
                        lemma_row_value(before, j);
                        assert(row_map(before)[k] == before[j].1@);
                        assert(old(self)@ == row_map(before));
                    } else {
                        lemma_sorted_unique(rows@, j, i as int);
                    }
                }
                assert(row_map(rows@) =~= old(self)@.insert(key@, value@));
            }
        } else {
            rows.insert(i, (owned(key), owned(value)));
            proof {
                assert forall|a: int, b: int| 0 <= a < b < rows@.len() implies str_lt(
                    #[trigger] rows@[a].0@,
                    #[trigger] rows@[b].0@,
                ) by {
                    if b < i {
                        assert(str_lt(before[a].0@, before[b].0@));
                    } else if b == i {
                        assert(rows@[a] == before[a]);
                    } else if a < i {
                        assert(rows@[b] == before[b - 1]);
                        assert(str_lt(before[a].0@, key@));
                        lemma_str_lt_order(before[a].0@, key@, before[b - 1].0@);
                    } else if a == i {
                        assert(rows@[b] == before[b - 1]);
                    } else {
                        assert(rows@[a] == before[a - 1] && rows@[b] == before[b - 1]);
                        assert(str_lt(before[a - 1].0@, before[b - 1].0@));
                    }
                }
                assert forall|k: Seq<char>| #[trigger] row_map(rows@).contains_key(k) == old(self)@.insert(key@, value@).contains_key(k) by {
                    if row_map(before).contains_key(k) {
                        let j = choose|j: int| 0 <= j < before.len() && #[trigger] before[j].0@ == k;
                        if j < i {
                            assert(rows@[j].0@ == k);
                        } else {
                            assert(rows@[j + 1].0@ == k);
                        }
                    }
                    if k == key@ {
                        assert(rows@[i as int].0@ == k);
                    }
                    if row_map(rows@).contains_key(k) && k != key@ {
                        let j = choose|j: int| 0 <= j < rows@.len() && #[trigger] rows@[j].0@ == k;
                        if j < i {
                            assert(before[j].0@ == k);
                        } else {
                            assert(j != i);
                            assert(before[j - 1].0@ == k);
                        }
                    }
                }
                assert forall|k: Seq<char>| #[trigger] row_map(rows@).contains_key(k) implies row_map(rows@)[k] == old(self)@.insert(key@, value@)[k] by {
                    let j = choose|j: int| 0 <= j < rows@.len() && #[trigger] rows@[j].0@ == k;
                    lemma_row_value(rows@, j);
                    assert(row_map(rows@)[k] == rows@[j].1@);
                    assert(old(self)@ == row_map(before));
                    if j < i {
                        assert(rows@[j] == before[j]);
                        lemma_row_value(before, j);
                        assert(str_lt(before[j].0@, key@));
                        lemma_str_lt_order(key@, key@, key@);
                        assert(k != key@);
                    } else if j > i {
                        assert(rows@[j] == before[j - 1]);
                        lemma_row_value(before, j - 1);
                        assert(str_lt(key@, before[j - 1].0@));
                        lemma_str_lt_order(key@, key@, key@);
                        assert(k != key@);
                    }
                }
                assert(row_map(rows@) =~= old(self)@.insert(key@, value@));
            }
        }
        self.rows = rows;
    }

    /// Settings holding `rows` as loaded from the table, later rows for the
    /// same key winning.
    pub fn from_rows(rows: &Vec<(String, String)>) -> (r: Self)
        ensures
            r@ == loaded(rows@.map_values(|p: (String, String)| (p.0@, p.1@))),
    {
        let ghost rv = rows@.map_values(|p: (String, String)| (p.0@, p.1@));
        let mut s = SearchSettings::new();
        let mut i: usize = 0;
        assert(rv.take(0) =~= Seq::<(Seq<char>, Seq<char>)>::empty());
        while i < rows.len()
            invariant
                0 <= i <= rows@.len(),
                rv == rows@.map_values(|p: (String, String)| (p.0@, p.1@)),
                s@ == loaded(rv.take(i as int)),
            decreases rows.len() - i,
        {
            s.set(rows[i].0.as_str(), rows[i].1.as_str());
            assert(rv.take(i + 1).drop_last() =~= rv.take(i as int));
            assert(rv.take(i + 1).last() == rv[i as int]);
            i += 1;
        }
        assert(rv.take(rv.len() as int) =~= rv);
        s
    }

    /// Every `(key, value)`, ordered by key.
    pub fn dump_all(&self) -> (r: Vec<(String, String)>)
        ensures
            r@.map_values(|p: (String, String)| (p.0@, p.1@)) == self.rows_view(),
            forall|i: int, j: int|
                0 <= i < j < r@.len() ==> str_lt(#[trigger] r@[i].0@, #[trigger] r@[j].0@),
            forall|i: int| 0 <= i < r@.len() ==> self@.contains_key(#[trigger] r@[i].0@) && self@[r@[i].0@] == r@[i].1@,
            forall|k: Seq<char>| #[trigger] self@.contains_key(k) ==> exists|i: int| 0 <= i < r@.len() && #[trigger] r@[i].0@ == k,
    {
        proof {
            use_type_invariant(self);
        }
        let mut out: Vec<(String, String)> = Vec::new();
        let mut i: usize = 0;
        while i < self.rows.len()
            invariant
                0 <= i <= self.rows@.len(),
                out@.len() == i,
                forall|j: int| 0 <= j < i ==> (#[trigger] out@[j]).0@ == self.rows@[j].0@ && out@[j].1@ == self.rows@[j].1@,
            decreases self.rows.len() - i,
        {
            out.push((owned(self.rows[i].0.as_str()), owned(self.rows[i].1.as_str())));
            i += 1;
        }
        proof {
            assert(out@.map_values(|p: (String, String)| (p.0@, p.1@)) =~= self.rows_view());
            assert forall|a: int, b: int| 0 <= a < b < out@.len() implies str_lt(#[trigger] out@[a].0@, #[trigger] out@[b].0@) by {
                assert(str_lt(self.rows@[a].0@, self.rows@[b].0@));
            }
            assert forall|a: int| 0 <= a < out@.len() implies self@.contains_key(#[trigger] out@[a].0@) && self@[out@[a].0@] == out@[a].1@ by {
                lemma_row_value(self.rows@, a);
            }
            assert forall|k: Seq<char>| #[trigger] self@.contains_key(k) implies exists|a: int| 0 <= a < out@.len() && #[trigger] out@[a].0@ == k by {
                let a = row_of(self.rows@, k);
                assert(out@[a].0@ == k);
            }
        }
        out
    }

    /// The selected engine; DuckDuckGo when none or an unknown one is stored.
    pub fn get_engine(&self) -> (r: SearchEngine)
        ensures
            r == stored_engine(self@),
    {
        let v = self.get("search_engine");
        match v {
            Some(x) => engine_setting(Some(x.as_str())),
            None => engine_setting(None),
        }
    }

    /// Select `engine`.
    pub fn set_engine(&mut self, engine: SearchEngine)
        ensures
            final(self)@ == old(self)@.insert("search_engine"@, engine_id(engine)),
    {
        self.set("search_engine", engine.id());
    }

    /// Whether metasearch is on (stored `1` or `true`, any case).
    pub fn get_metasearch(&self) -> (r: bool)
        ensures
            r == stored_flag(self@, "metasearch"@),
    {
        let v = self.get("metasearch");
        match v {
            Some(x) => flag_setting(Some(x.as_str())),
            None => flag_setting(None),
        }
    }

    /// Turn metasearch on or off.
    pub fn set_metasearch(&mut self, enabled: bool)
        ensures
            final(self)@ == old(self)@.insert("metasearch"@, flag_text(enabled)),
    {
        self.set("metasearch", flag_value(enabled));
    }

    /// Whether the mobile user agent is selected (stored `mobile`).
    pub fn get_mobile_ua(&self) -> (r: bool)
        ensures
            r == (self@.contains_key("mobile_ua"@) && self@["mobile_ua"@] == "mobile"@),
    {
        let v = self.get("mobile_ua");
        match v {
            Some(x) => mobile_ua_setting(Some(x.as_str())),
            None => mobile_ua_setting(None),
        }
    }

    /// Select the mobile or the desktop user agent.
    pub fn set_mobile_ua(&mut self, mobile: bool)
        ensures
            final(self)@ == old(self)@.insert(
                "mobile_ua"@,
                if mobile {
                    "mobile"@
                } else {
                    "desktop"@
                },
            ),
    {
        self.set("mobile_ua", mobile_ua_value(mobile));
    }

    /// Whether routing through Tor is on.
    pub fn get_tor_enabled(&self) -> (r: bool)
        ensures
            r == stored_flag(self@, "tor_enabled"@),
    {
        let v = self.get("tor_enabled");
        match v {
            Some(x) => flag_setting(Some(x.as_str())),
            None => flag_setting(None),
        }
    }

    /// Turn routing through Tor on or off.
    pub fn set_tor_enabled(&mut self, enabled: bool)
        ensures
            final(self)@ == old(self)@.insert("tor_enabled"@, flag_text(enabled)),
    {
        self.set("tor_enabled", flag_value(enabled));
    }

    /// The Tor SOCKS5 address; the stock daemon's when none or an empty
    /// one is stored.
    pub fn get_tor_proxy_addr(&self) -> (r: String)
        ensures
            r@ == (if self@.contains_key("tor_proxy_addr"@) && self@["tor_proxy_addr"@].len() > 0 {
                self@["tor_proxy_addr"@]
            } else {
                DEFAULT_TOR_SOCKS5@
            }),
    {
        let v = self.get("tor_proxy_addr");
        match v {
            Some(x) => tor_proxy_addr_setting(Some(x.as_str())),
            None => tor_proxy_addr_setting(None),
        }
    }

    /// Set the Tor SOCKS5 address.
    pub fn set_tor_proxy_addr(&mut self, addr: &str)
        ensures
            final(self)@ == old(self)@.insert("tor_proxy_addr"@, addr@),
    {
        self.set("tor_proxy_addr", addr);
    }

    /// Whether the embedded Tor client is used.
    pub fn get_tor_builtin(&self) -> (r: bool)
        ensures
            r == stored_flag(self@, "tor_builtin"@),
    {
        let v = self.get("tor_builtin");
        match v {
            Some(x) => flag_setting(Some(x.as_str())),
            None => flag_setting(None),
        }
    }

    /// Use the embedded Tor client or not.
    pub fn set_tor_builtin(&mut self, enabled: bool)
        ensures
            final(self)@ == old(self)@.insert("tor_builtin"@, flag_text(enabled)),
    {
        self.set("tor_builtin", flag_value(enabled));
    }

    /// Restore the allowed settings of a backup; returns how many were
    /// applied. Keys outside the allowlist are ignored, so a tampered
    /// backup cannot inject others.
    pub fn restore_all(&mut self, pairs: &Vec<(String, String)>) -> (n: usize)
        ensures
            final(self)@ == restored(old(self)@, pairs@.map_values(|p: (String, String)| (p.0@, p.1@))),
            n == restorable_count(pairs@.map_values(|p: (String, String)| (p.0@, p.1@))),
    {
        let ghost pv = pairs@.map_values(|p: (String, String)| (p.0@, p.1@));
        let ghost start = self@;
        let mut n: usize = 0;
        let mut i: usize = 0;
        assert(pv.take(0) =~= Seq::<(Seq<char>, Seq<char>)>::empty());
        while i < pairs.len()
            invariant
                0 <= i <= pairs@.len(),
                pv == pairs@.map_values(|p: (String, String)| (p.0@, p.1@)),
                self@ == restored(start, pv.take(i as int)),
                n == restorable_count(pv.take(i as int)),
                n <= i,
            decreases pairs.len() - i,
        {
            assert(pv.take(i + 1).drop_last() =~= pv.take(i as int));
            assert(pv.take(i + 1).last() == pv[i as int]);
            if is_restorable_key(pairs[i].0.as_str()) {
                self.set(pairs[i].0.as_str(), pairs[i].1.as_str());
                n += 1;
            }
            i += 1;
        }
        assert(pv.take(pv.len() as int) =~= pv);
        n
    }
}

/// The table after loading `rows` in order.
pub open spec fn loaded(rows: Seq<(Seq<char>, Seq<char>)>) -> Map<Seq<char>, Seq<char>>
    decreases rows.len(),
{
    if rows.len() == 0 {
        Map::empty()
    } else {
        loaded(rows.drop_last()).insert(rows.last().0, rows.last().1)
    }
}

/// The table after restoring `pairs`: allowed keys are written in order.
pub open spec fn restored(m: Map<Seq<char>, Seq<char>>, pairs: Seq<(Seq<char>, Seq<char>)>) -> Map<Seq<char>, Seq<char>>
    decreases pairs.len(),
{
    if pairs.len() == 0 {
        m
    } else {
        let before = restored(m, pairs.drop_last());
        if restorable_key(pairs.last().0) {
            before.insert(pairs.last().0, pairs.last().1)
        } else {
            before
        }
    }
}

/// How many of `pairs` have an allowed key.
pub open spec fn restorable_count(pairs: Seq<(Seq<char>, Seq<char>)>) -> nat
    decreases pairs.len(),
{
    if pairs.len() == 0 {
        0
    } else {
        restorable_count(pairs.drop_last()) + if restorable_key(pairs.last().0) {
            1nat
        } else {
            0nat
        }
    }
}

/// The engine the table selects.
pub open spec fn stored_engine(m: Map<Seq<char>, Seq<char>>) -> SearchEngine {
    if m.contains_key("search_engine"@) {
        match engine_of_id(m["search_engine"@]) {
            Some(e) => e,
            None => SearchEngine::DuckDuckGo,
        }
    } else {
        SearchEngine::DuckDuckGo
    }
}

/// Whether the flag `key` is on in the table.
pub open spec fn stored_flag(m: Map<Seq<char>, Seq<char>>, key: Seq<char>) -> bool {
    m.contains_key(key) && flag_on(m[key])
}

/// How a flag is stored.
pub open spec fn flag_text(enabled: bool) -> Seq<char> {
    if enabled {
        "1"@
    } else {
        "0"@
    }
}

/// A selected engine reads back as itself.
pub proof fn lemma_engine_setting_round_trip(m: Map<Seq<char>, Seq<char>>, e: SearchEngine)
    ensures
        stored_engine(m.insert("search_engine"@, engine_id(e))) == e,
{
    lemma_engine_id_round_trip(e);
}

/// A stored flag reads back as what was stored.
pub proof fn lemma_flag_round_trip(m: Map<Seq<char>, Seq<char>>, key: Seq<char>, enabled: bool)
    ensures
        stored_flag(m.insert(key, flag_text(enabled)), key) == enabled,
{
    reveal_strlit("1");
    reveal_strlit("0");
    reveal_strlit("true");
    assert("0"@.len() == 1 && "true"@.len() == 4);
    assert("0"@[0] == '0' && "1"@[0] == '1');
    let m2 = m.insert(key, flag_text(enabled));
    assert(m2.contains_key(key) && m2[key] == flag_text(enabled));
    if !enabled {
        assert("0"@ != "1"@);
        assert(lower("0"@).len() == 1);
        assert(lower("true"@).len() == 4);
        assert(lower("0"@) != lower("true"@));
    }
}

/// Restoring a backup never touches a key outside the allowlist.
pub proof fn lemma_restore_keeps_other_keys(
    m: Map<Seq<char>, Seq<char>>,
    pairs: Seq<(Seq<char>, Seq<char>)>,
    k: Seq<char>,
)
    requires
        !restorable_key(k),
    ensures
        restored(m, pairs).contains_key(k) == m.contains_key(k),
        m.contains_key(k) ==> restored(m, pairs)[k] == m[k],
    decreases pairs.len(),
{
    if pairs.len() > 0 {
        lemma_restore_keeps_other_keys(m, pairs.drop_last(), k);
    }
}

} // verus!
