//! Filtering-proxy bookkeeping: request counters for the dashboard, the
//! recent-blocks log, the built-in filter floor and the search-engine
//! carve-out.
//!
//! Filter rules match URLs against regex patterns (compatible with easylist
//! basic entries). Matching requests are answered with 204 No Content and
//! counted as blocked.

use vstd::prelude::*;

use crate::clock::now_secs;
use crate::ring::{lemma_pushed_all_newest_first, min_nat, newest_first, pushed, pushed_all, Duplicate, Ring};
use crate::search::{all_engines, always_allowed_hosts, engine_host};
use crate::body_analysis::{analyze, libraries_in, login_cross_origin, password_insecure, script_srcs};
use crate::list_loader::{set_matches, FilterSet};
use crate::security::{opt_str, recorded_body, recorded_request, SecurityStore, SignalsView};
use crate::text::{
    chars_eq, chars_of, contains_str, ends_with, has_sub, has_suffix, lower, lower_chars, lowercase,
    push_char, push_str,
};
use crate::urls::{parsed_host, parsed_scheme, url_host, url_scheme};

verus! {

/// Request counters shown on the dashboard.
#[derive(Debug)]
pub struct ProxyStats {
    pub requests_total: u64,
    pub requests_blocked: u64,
    pub bytes_saved: u64,
}

impl Default for ProxyStats {
    fn default() -> (r: Self)
        ensures
            r.requests_total == 0,
            r.requests_blocked == 0,
            r.bytes_saved == 0,
    {
        ProxyStats { requests_total: 0, requests_blocked: 0, bytes_saved: 0 }
    }
}

/// Rough size of a blocked response we avoided downloading.
pub const BYTES_SAVED_PER_BLOCK: u64 = 2048;

impl ProxyStats {
    /// The counters at this moment.
    pub fn snapshot(&self) -> (s: StatsSnapshot)
        ensures
            s.requests_total == self.requests_total,
            s.requests_blocked == self.requests_blocked,
            s.bytes_saved == self.bytes_saved,
    {
        StatsSnapshot {
            requests_total: self.requests_total,
            requests_blocked: self.requests_blocked,
            bytes_saved: self.bytes_saved,
        }
    }

    /// Count one request seen by the proxy (wrapping, like the atomic
    /// counter it replaces).
    pub fn count_request(&mut self)
        ensures
            final(self).requests_total == old(self).requests_total.wrapping_add(1),
            final(self).requests_blocked == old(self).requests_blocked,
            final(self).bytes_saved == old(self).bytes_saved,
    {
        self.requests_total = self.requests_total.wrapping_add(1);
    }

    /// Count one blocked request and the bytes it saved.
    pub fn count_block(&mut self)
        ensures
            final(self).requests_total == old(self).requests_total,
            final(self).requests_blocked == old(self).requests_blocked.wrapping_add(1),
            final(self).bytes_saved == old(self).bytes_saved.wrapping_add(BYTES_SAVED_PER_BLOCK),
    {
        self.requests_blocked = self.requests_blocked.wrapping_add(1);
        self.bytes_saved = self.bytes_saved.wrapping_add(BYTES_SAVED_PER_BLOCK);
    }
}

/// Counter values handed to the UI.
#[derive(Debug, Clone, Copy, PartialEq, Eq)]
pub struct StatsSnapshot {
    pub requests_total: u64,
    pub requests_blocked: u64,
    pub bytes_saved: u64,
}

/// One entry in the recent-blocks ring buffer shown in the Dashboard.
#[derive(Debug)]
pub struct BlockedEntry {
    /// Unix seconds when the block happened.
    pub ts: u64,
    /// The blocked URL.
    pub url: String,
}

impl Duplicate for BlockedEntry {
    fn duplicate(&self) -> (r: Self) {
        BlockedEntry { ts: self.ts, url: self.url.clone() }
    }
}

impl Clone for BlockedEntry {
    fn clone(&self) -> (r: Self)
        ensures
            r == *self,
    {
        self.duplicate()
    }
}

/// How many recent block events to keep. Bounded so memory stays flat even
/// on a busy browsing session.
pub const BLOCK_LOG_CAPACITY: usize = 500;

/// Recent blocked requests, oldest first.
pub struct BlockLog {
    inner: Ring<BlockedEntry, BLOCK_LOG_CAPACITY>,
}

impl Default for BlockLog {
    fn default() -> (r: Self)
        ensures
            r.entries() == Seq::<BlockedEntry>::empty(),
            r.capacity() == BLOCK_LOG_CAPACITY,
    {
        BlockLog { inner: Ring::new() }
    }
}

impl BlockLog {
    /// The blocks held, oldest first.
    pub closed spec fn entries(&self) -> Seq<BlockedEntry> {
        self.inner.entries()
    }

    /// How many blocks are kept.
    pub open spec fn capacity(&self) -> nat {
        BLOCK_LOG_CAPACITY as nat
    }

    /// Every log holds at most its capacity.
    pub proof fn lemma_bounded(&self)
        ensures
            self.entries().len() <= self.capacity(),
    {
        self.inner.lemma_bounded();
    }

    /// Record a block of `url`, stamped with the current time.
    pub fn push(&mut self, url: String)
        ensures
            final(self).capacity() == old(self).capacity(),
            final(self).entries().len() <= final(self).capacity(),
            final(self).entries().len() > 0,
            final(self).entries().last().url == url,
            final(self).entries() == pushed(old(self).entries(), final(self).entries().last(), old(self).capacity()),
            final(self).entries().drop_last() == if old(self).entries().len() >= old(self).capacity() {
                old(self).entries().drop_first()
            } else {
                old(self).entries()
            },
    {
        let ts = now_secs();
        self.inner.push(BlockedEntry { ts, url });
        assert(self.entries().drop_last() =~= if old(self).entries().len() >= old(self).capacity() {
            old(self).entries().drop_first()
        } else {
            old(self).entries()
        });
    }

    /// Return up to `limit` most-recent entries, newest first.
    pub fn recent(&self, limit: usize) -> (r: Vec<BlockedEntry>)
        ensures
            r@ == newest_first(self.entries(), limit as nat),
    {
        self.inner.recent_newest_first(limit)
    }

    /// Forget every block.
    pub fn clear(&mut self)
        ensures
            final(self).entries() == Seq::<BlockedEntry>::empty(),
            final(self).capacity() == old(self).capacity(),
    {
        self.inner.clear();
    }
}

/// Whether a (lowercase) host is one of the search engines' hosts or a
/// subdomain of one.
pub open spec fn allowed_host(h: Seq<char>) -> bool {
    exists|i: int|
        0 <= i < all_engines().len() && (h == engine_host(all_engines()[i]) || has_suffix(
            h,
            seq!['.'] + engine_host(all_engines()[i]),
        ))
}

/// Whether the given host should always skip filter matching. The
/// always-allow list is derived from the configured search engines; we
/// don't want a contextual EasyList rule to block the user's own search.
/// Exact host match or subdomain match - so `duckduckgo.com` allows both
/// `duckduckgo.com` and `improving.duckduckgo.com` (the CDN).
pub fn host_is_always_allowed(host: &str) -> (b: bool)
    ensures
        b == allowed_host(lower(host@)),
{
    let raw = chars_of(host);
    let h = lower_chars(&raw);
    let hosts = always_allowed_hosts();
    let mut i: usize = 0;
    while i < hosts.len()
        invariant
            0 <= i <= hosts@.len(),
            hosts@.len() == all_engines().len(),
            forall|k: int| 0 <= k < hosts@.len() ==> (#[trigger] hosts@[k])@ == engine_host(all_engines()[k]),
            h@ == lower(host@),
            forall|k: int|
                0 <= k < i ==> !(h@ == engine_host(all_engines()[k]) || has_suffix(
                    h@,
                    seq!['.'] + engine_host(all_engines()[k]),
                )),
        decreases hosts.len() - i,
    {
        let allowed = chars_of(hosts[i]);
        let mut dotted = String::new();
        push_char(&mut dotted, '.');
        push_str(&mut dotted, hosts[i]);
        assert(hosts@[i as int]@ == engine_host(all_engines()[i as int]));
        assert(dotted@ =~= seq!['.'] + engine_host(all_engines()[i as int]));
        if chars_eq(&h, &allowed) || ends_with(&h, dotted.as_str()) {
            return true;
        }
        i += 1;
    }
    false
}

/// Every search engine's own host, and every subdomain of it, bypasses the
/// filters.
pub proof fn lemma_engine_hosts_allowed(i: int, sub: Seq<char>)
    requires
        0 <= i < all_engines().len(),
    ensures
        allowed_host(engine_host(all_engines()[i])),
        allowed_host(sub + seq!['.'] + engine_host(all_engines()[i])),
{
    let h = engine_host(all_engines()[i]);
    let s = sub + seq!['.'] + h;
    assert(s.skip(s.len() - (seq!['.'] + h).len()) =~= seq!['.'] + h);
}

/// Minimal built-in filter set. Always active on top of any loaded lists so
/// there is a floor of protection even if all network lists fail to fetch.
pub open spec fn builtin_patterns() -> Seq<Seq<char>> {
    seq![
        "^https?://[^/]*doubleclick\\.net/"@,
        "^https?://[^/]*google-analytics\\.com/"@,
        "^https?://[^/]*googletagmanager\\.com/"@,
        "^https?://[^/]*facebook\\.com/tr"@,
        "^https?://[^/]*hotjar\\.com/"@,
        "^https?://[^/]*mixpanel\\.com/"@,
        "^https?://[^/]*segment\\.(io|com)/"@,
        "^https?://[^/]*amplitude\\.com/"@,
    ]
}

/// The built-in filter floor.
pub fn default_filter_patterns() -> (r: Vec<&'static str>)
    ensures
        r@.len() == builtin_patterns().len(),
        forall|i: int| 0 <= i < r@.len() ==> (#[trigger] r@[i])@ == builtin_patterns()[i],
{
    let mut v: Vec<&'static str> = Vec::new();
    v.push("^https?://[^/]*doubleclick\\.net/");
    v.push("^https?://[^/]*google-analytics\\.com/");
    v.push("^https?://[^/]*googletagmanager\\.com/");
    v.push("^https?://[^/]*facebook\\.com/tr");
    v.push("^https?://[^/]*hotjar\\.com/");
    v.push("^https?://[^/]*mixpanel\\.com/");
    v.push("^https?://[^/]*segment\\.(io|com)/");
    v.push("^https?://[^/]*amplitude\\.com/");
    v
}

// ---------------------------------------------------------------------
// Deciding on a request
// ---------------------------------------------------------------------

/// Whether any of the active filter sets matches `url`.
pub open spec fn any_filter_matches(filters: Seq<FilterSet>, url: Seq<char>) -> bool {
    exists|i: int| 0 <= i < filters.len() && #[trigger] set_matches(filters[i].patterns(), filters[i].size_limit(), url)
}

/// Whether a request is blocked: filtering is on, its host is not a
/// search engine's, and a filter set matches its URL.
pub open spec fn blocked_request(
    filters_enabled: bool,
    host: Option<Seq<char>>,
    filters: Seq<FilterSet>,
    url: Seq<char>,
) -> bool {
    &&& filters_enabled
    &&& !(host matches Some(h) && allowed_host(lower(h)))
    &&& any_filter_matches(filters, url)
}

/// Whether any of `filters` matches `url`.
pub fn any_match(filters: &Vec<FilterSet>, url: &str) -> (b: bool)
    ensures
        b == any_filter_matches(filters@, url@),
{
    let mut i: usize = 0;
    while i < filters.len()
        invariant
            0 <= i <= filters@.len(),
            forall|k: int| 0 <= k < i ==> !set_matches(filters@[k].patterns(), filters@[k].size_limit(), url@),
        decreases filters.len() - i,
    {
        if filters[i].is_match(url) {
            return true;
        }
        i += 1;
    }
    false
}

/// A request to a search engine's own host, or to a subdomain of it
/// (compared in lower case), is never blocked, whatever the filters say.
pub proof fn lemma_engine_requests_never_blocked(
    i: int,
    host: Seq<char>,
    filters_enabled: bool,
    filters: Seq<FilterSet>,
    url: Seq<char>,
)
    requires
        0 <= i < all_engines().len(),
        lower(host) == engine_host(all_engines()[i]) || has_suffix(
            lower(host),
            seq!['.'] + engine_host(all_engines()[i]),
        ),
    ensures
        !blocked_request(filters_enabled, Some(host), filters, url),
{
    assert(allowed_host(lower(host)));
}

/// Decide whether to block the request for `url` to `host`.
pub fn request_blocked(
    filters_enabled: bool,
    host: Option<&str>,
    filters: &Vec<FilterSet>,
    url: &str,
) -> (b: bool)
    ensures
        b == blocked_request(filters_enabled, opt_str(host), filters@, url@),
{
    if !filters_enabled {
        return false;
    }
    let host_allowed = match host {
        Some(h) => host_is_always_allowed(h),
        None => false,
    };
    !host_allowed && any_match(filters, url)
}

/// Handle one request through the proxy at `now`: count it; when it is
/// blocked, count the block, log its URL and record it as a blocked
/// request of its page; otherwise record it as an allowed one. Says
/// whether it was blocked (answered with an empty 204).
pub fn on_request(
    stats: &mut ProxyStats,
    log: &mut BlockLog,
    security: &mut SecurityStore,
    filters_enabled: bool,
    host: Option<&str>,
    filters: &Vec<FilterSet>,
    url: &str,
    referer: Option<&str>,
    now: u64,
) -> (blocked: bool)
    ensures
        blocked == blocked_request(filters_enabled, opt_str(host), filters@, url@),
        final(stats).requests_total == old(stats).requests_total.wrapping_add(1),
        blocked ==> final(stats).requests_blocked == old(stats).requests_blocked.wrapping_add(1)
            && final(stats).bytes_saved == old(stats).bytes_saved.wrapping_add(BYTES_SAVED_PER_BLOCK),
        !blocked ==> final(stats).requests_blocked == old(stats).requests_blocked
            && final(stats).bytes_saved == old(stats).bytes_saved
            && final(log).entries() == old(log).entries(),
        blocked ==> final(log).entries().len() > 0 && final(log).entries().last().url@ == url@
            && final(log).entries().drop_last() == if old(log).entries().len() >= old(log).capacity() {
                old(log).entries().drop_first()
            } else {
                old(log).entries()
            },
        final(log).capacity() == old(log).capacity(),
        recorded_request(old(security)@, final(security)@, url@, opt_str(referer), blocked, now),
{
    stats.count_request();
    let blocked = request_blocked(filters_enabled, host, filters, url);
    if blocked {
        stats.count_block();
        log.push(owned_url(url));
    }
    security.record_request_at(url, referer, blocked, now);
    blocked
}

/// `url`, owned.
fn owned_url(url: &str) -> (r: String)
    ensures
        r@ == url@,
{
    crate::text::owned(url)
}

// ---------------------------------------------------------------------
// Inspecting a response
// ---------------------------------------------------------------------

/// A `Set-Cookie` value is weak unless it carries both `Secure` and
/// `HttpOnly` (compared in lower case).
pub open spec fn weak_cookie(value: Seq<char>) -> bool {
    !(has_sub(lower(value), "secure"@) && has_sub(lower(value), "httponly"@))
}

/// Whether one `Set-Cookie` value is weak.
pub fn cookie_is_insecure(value: &str) -> (b: bool)
    ensures
        b == weak_cookie(value@),
{
    let l = lowercase(value);
    let cs = chars_of(l.as_str());
    !(contains_str(&cs, "secure") && contains_str(&cs, "httponly"))
}

/// Whether any of a response's `Set-Cookie` values is weak (a value that
/// is not visible ASCII is read as empty, and so is weak).
pub fn any_insecure_cookie(values: &Vec<String>) -> (b: bool)
    ensures
        b == exists|i: int| 0 <= i < values@.len() && weak_cookie(#[trigger] values@[i]@),
{
    let mut i: usize = 0;
    while i < values.len()
        invariant
            0 <= i <= values@.len(),
            forall|k: int| 0 <= k < i ==> !weak_cookie(#[trigger] values@[k]@),
        decreases values.len() - i,
    {
        if cookie_is_insecure(values[i].as_str()) {
            return true;
        }
        i += 1;
    }
    false
}

/// Largest HTML body buffered for analysis: 512 KiB.
pub const MAX_BODY_BYTES: usize = 524288;

/// The value of a run of ASCII digits.
pub open spec fn digits_value(d: Seq<char>) -> nat
    decreases d.len(),
{
    if d.len() == 0 {
        0
    } else {
        digits_value(d.drop_last()) * 10 + ((d.last() as u32) - ('0' as u32)) as nat
    }
}

/// `s` without one leading `+`.
pub open spec fn unsigned_digits(s: Seq<char>) -> Seq<char> {
    if s.len() > 0 && s[0] == '+' {
        s.drop_first()
    } else {
        s
    }
}

/// Every character of `d` is an ASCII digit.
pub open spec fn all_digits(d: Seq<char>) -> bool {
    forall|i: int| 0 <= i < d.len() ==> '0' <= #[trigger] d[i] <= '9'
}

/// `usize::from_str`: an optional `+`, then one or more ASCII digits, with
/// a value that fits.
pub open spec fn parsed_usize(s: Seq<char>) -> Option<usize> {
    let d = unsigned_digits(s);
    if d.len() == 0 || !all_digits(d) {
        None
    } else if digits_value(d) > usize::MAX {
        None
    } else {
        Some(digits_value(d) as usize)
    }
}

/// A prefix of digits is worth no more than the whole run.
proof fn lemma_digits_prefix(d: Seq<char>, n: int)
    requires
        0 <= n <= d.len(),
        forall|i: int| 0 <= i < d.len() ==> '0' <= #[trigger] d[i] <= '9',
    ensures
        digits_value(d.take(n)) <= digits_value(d),
    decreases d.len() - n,
{
    if n < d.len() {
        lemma_digits_prefix(d, n + 1);
        assert(d.take(n + 1).drop_last() =~= d.take(n));
    } else {
        assert(d.take(n) =~= d);
    }
}

/// Parse a `Content-Length` value as `str::parse::<usize>` does.
pub fn parse_usize(s: &str) -> (r: Option<usize>)
    ensures
        r == parsed_usize(s@),
{
    let cs = chars_of(s);
    let start: usize = if cs.len() > 0 && cs[0] == '+' {
        1
    } else {
        0
    };
    let ghost d = unsigned_digits(s@);
    assert(d =~= cs@.skip(start as int));
    if start == cs.len() {
        return None;
    }
    let mut value: usize = 0;
    let mut i: usize = start;
    while i < cs.len()
        invariant
            start <= i <= cs@.len(),
            cs@ == s@,
            d == unsigned_digits(s@),
            d == cs@.skip(start as int),
            forall|k: int| start <= k < i ==> '0' <= #[trigger] cs@[k] <= '9',
            value == digits_value(d.take(i - start)),
        decreases cs.len() - i,
    {
        let c = cs[i];
        if !('0' <= c && c <= '9') {
            proof {
                assert(d[i - start] == c);
                assert(!all_digits(d));
            }
            return None;
        }
        let digit = ((c as u32) - ('0' as u32)) as usize;
        assert(d.take(i - start + 1).drop_last() =~= d.take(i - start));
        assert(d.take(i - start + 1).last() == c);
        assert(digits_value(d.take(i - start + 1)) == value * 10 + digit);
        if value > (usize::MAX - digit) / 10 {
            proof {
                assert(value * 10 + digit > usize::MAX) by (nonlinear_arith)
                    requires
                        value > (usize::MAX - digit) / 10,
                        digit <= 9,
                ;
                if all_digits(d) {
                    lemma_digits_prefix(d, i - start + 1);
                    assert(digits_value(d) > usize::MAX);
                }
                assert(parsed_usize(s@) is None);
            }
            return None;
        }
        assert(value * 10 + digit <= usize::MAX) by (nonlinear_arith)
            requires
                value <= (usize::MAX - digit) / 10,
                digit <= 9,
        ;
        value = value * 10 + digit;
        i += 1;
    }
    assert(d.take(d.len() as int) =~= d);
    assert forall|k: int| 0 <= k < d.len() implies '0' <= #[trigger] d[k] <= '9' by {
        assert(d[k] == cs@[start + k]);
    }
    assert(all_digits(d));
    Some(value)
}

/// Whether a response's body is analyzed: it is HTML (its content type,
/// in lower case, mentions `text/html`) and declares a length of at most
/// `MAX_BODY_BYTES`. Chunked responses pass through untouched.
pub open spec fn analyzed_body(content_type: Option<Seq<char>>, content_length: Option<Seq<char>>) -> bool {
    &&& content_type matches Some(ct) && has_sub(lower(ct), "text/html"@)
    &&& content_length matches Some(l) && parsed_usize(l) matches Some(n) && n <= MAX_BODY_BYTES
}

/// Decide whether to buffer and analyze a response body.
pub fn should_analyze_body(content_type: Option<&str>, content_length: Option<&str>) -> (b: bool)
    ensures
        b == analyzed_body(opt_str(content_type), opt_str(content_length)),
{
    let is_html = match content_type {
        Some(ct) => {
            let l = lowercase(ct);
            contains_str(&chars_of(l.as_str()), "text/html")
        },
        None => false,
    };
    if !is_html {
        return false;
    }
    match content_length {
        Some(l) => match parse_usize(l) {
            Some(n) => n <= MAX_BODY_BYTES,
            None => false,
        },
        None => false,
    }
}

/// What analyzing the HTML `html` of the page at `url` records at `now`:
/// nothing when the URL does not parse, has no host, or the page shows no
/// signal; else its findings, under its lower-case host.
pub open spec fn recorded_page_body(
    before: Map<Seq<char>, SignalsView>,
    after: Map<Seq<char>, SignalsView>,
    url: Seq<char>,
    html: Seq<char>,
    now: u64,
) -> bool {
    let host = match parsed_host(url) {
        Some(h) => lower(h),
        None => Seq::empty(),
    };
    let scheme = match parsed_scheme(url) {
        Some(s) => s,
        None => Seq::empty(),
    };
    let cross = login_cross_origin(html, host);
    let pw = password_insecure(html, scheme);
    let libs = libraries_in(script_srcs(html));
    if parsed_scheme(url) is None || host.len() == 0 || (cross is None && !pw && libs.len() == 0) {
        after == before
    } else {
        recorded_body(before, after, host, cross, pw, libs, now)
    }
}

/// Analyze the HTML body of the page at `url` and record what it shows.
pub fn record_page_body(security: &mut SecurityStore, url: &str, html: &str, now: u64)
    ensures
        recorded_page_body(old(security)@, final(security)@, url@, html@, now),
{
    let scheme = match url_scheme(url) {
        Some(s) => s,
        None => return ,
    };
    let host = match url_host(url) {
        Some(h) => lowercase(h.as_str()),
        None => String::new(),
    };
    if host.as_str().is_empty() {
        return ;
    }
    let findings = analyze(html, host.as_str(), scheme.as_str());
    if findings.any_signal() {
        security.record_body_at(host.as_str(), findings, now);
    }
}

/// After a clear, blocking the entries of `blocked` one by one and listing
/// up to `limit` gives the newest blocks the log still keeps, newest first:
/// as many as the limit, the count and the capacity allow, the `i`-th
/// being the `i`-th last blocked.
pub proof fn law_blocks_then_recent(blocked: Seq<BlockedEntry>, limit: nat)
    ensures
        ({
            let r = newest_first(pushed_all(Seq::<BlockedEntry>::empty(), blocked, BLOCK_LOG_CAPACITY as nat), limit);
            &&& r.len() == min_nat(limit, min_nat(blocked.len(), BLOCK_LOG_CAPACITY as nat))
            &&& forall|i: int| 0 <= i < r.len() ==> #[trigger] r[i].url == blocked[blocked.len() - 1 - i].url
        }),
{
    lemma_pushed_all_newest_first(blocked, BLOCK_LOG_CAPACITY as nat, limit);
}

} // verus!
