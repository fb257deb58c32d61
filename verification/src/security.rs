//! Per-page signals gathered by the filtering proxy.
//!
//! Every request the webview makes is attributed to the page that made it
//! (the host of its Referer) and counted there; response headers, the
//! upstream certificate and body findings of HTML documents are recorded
//! against the host that served them. The trust scorer reads the signals
//! of the page the user is looking at.
//!
//! The store is bounded: a page keeps at most `THIRD_PARTY_CAP` distinct
//! third-party hosts, and at most `PAGE_CAP` pages are tracked; a new page
//! beyond that evicts one that was touched least recently.

use vstd::prelude::*;

use crate::assoc::{
    lookup, assoc_map, distinct_keys, lemma_assoc_len, lemma_lookup_entries, lemma_lookup_push,
    lemma_lookup_remove, lemma_lookup_update,
};
use crate::body_analysis::BodyFindings;
use crate::clock::now_secs;
use crate::text::{
    chars_of, clone_strings, contains_str, has_sub, lower, lowercase, opt_view, owned,
    position_of, trim_lowercase, trimmed, views,
};
use crate::urls::{parsed_host, parsed_scheme, url_host, url_scheme};

verus! {

/// Most third-party hosts remembered per page.
pub const THIRD_PARTY_CAP: usize = 200;

/// Most pages tracked at once.
pub const PAGE_CAP: usize = 512;

/// Which security headers the latest HTML document of a host carried.
/// `seen` gates the rest: it is false until such a response was seen.
#[derive(Debug, Clone, Copy, PartialEq, Eq, Structural)]
pub struct HeaderSnapshot {
    pub seen: bool,
    pub csp: bool,
    pub hsts: bool,
    pub xfo: bool,
    pub xcto: bool,
    pub referrer_policy: bool,
    pub permissions_policy: bool,
    /// A `Set-Cookie` lacked both `Secure` and `HttpOnly`.
    pub insecure_cookie: bool,
}

/// No header seen.
pub open spec fn no_headers() -> HeaderSnapshot {
    HeaderSnapshot {
        seen: false,
        csp: false,
        hsts: false,
        xfo: false,
        xcto: false,
        referrer_policy: false,
        permissions_policy: false,
        insecure_cookie: false,
    }
}

impl Default for HeaderSnapshot {
    fn default() -> (r: Self)
        ensures
            r == no_headers(),
    {
        HeaderSnapshot {
            seen: false,
            csp: false,
            hsts: false,
            xfo: false,
            xcto: false,
            referrer_policy: false,
            permissions_policy: false,
            insecure_cookie: false,
        }
    }
}

/// The part of the upstream leaf certificate the scorer reads. `seen` is
/// false until a TLS handshake with the host succeeded.
#[derive(Debug)]
pub struct CertSnapshot {
    pub seen: bool,
    pub issuer_cn: String,
    pub subject_cn: String,
    /// Unix seconds.
    pub not_before: i64,
    /// Unix seconds.
    pub not_after: i64,
    /// Signature algorithm OID.
    pub sig_alg: String,
    /// Issuer and subject are the same name.
    pub self_signed: bool,
}

/// A certificate snapshot as plain values.
pub ghost struct CertView {
    pub seen: bool,
    pub issuer_cn: Seq<char>,
    pub subject_cn: Seq<char>,
    pub not_before: i64,
    pub not_after: i64,
    pub sig_alg: Seq<char>,
    pub self_signed: bool,
}

impl View for CertSnapshot {
    type V = CertView;

    open spec fn view(&self) -> CertView {
        CertView {
            seen: self.seen,
            issuer_cn: self.issuer_cn@,
            subject_cn: self.subject_cn@,
            not_before: self.not_before,
            not_after: self.not_after,
            sig_alg: self.sig_alg@,
            self_signed: self.self_signed,
        }
    }
}

/// No certificate seen.
pub open spec fn no_cert() -> CertView {
    CertView {
        seen: false,
        issuer_cn: Seq::empty(),
        subject_cn: Seq::empty(),
        not_before: 0,
        not_after: 0,
        sig_alg: Seq::empty(),
        self_signed: false,
    }
}

impl Clone for CertSnapshot {
    fn clone(&self) -> (r: Self)
        ensures
            r@ == self@,
    {
        CertSnapshot {
            seen: self.seen,
            issuer_cn: owned(self.issuer_cn.as_str()),
            subject_cn: owned(self.subject_cn.as_str()),
            not_before: self.not_before,
            not_after: self.not_after,
            sig_alg: owned(self.sig_alg.as_str()),
            self_signed: self.self_signed,
        }
    }
}

impl Default for CertSnapshot {
    fn default() -> (r: Self)
        ensures
            r@ == no_cert(),
    {
        CertSnapshot {
            seen: false,
            issuer_cn: String::new(),
            subject_cn: String::new(),
            not_before: 0,
            not_after: 0,
            sig_alg: String::new(),
            self_signed: false,
        }
    }
}

/// Body findings merged over a host's HTML documents: once a signal fired
/// it stays until the store is cleared.
#[derive(Debug)]
pub struct BodySnapshot {
    pub seen: bool,
    pub login_form_cross_origin_host: Option<String>,
    pub password_on_insecure_origin: bool,
    /// Each library once, in order of first report.
    pub outdated_libraries: Vec<String>,
}

/// Body findings as plain values.
pub ghost struct BodyView {
    pub seen: bool,
    pub login_form_cross_origin_host: Option<Seq<char>>,
    pub password_on_insecure_origin: bool,
    pub outdated_libraries: Seq<Seq<char>>,
}

impl View for BodySnapshot {
    type V = BodyView;

    open spec fn view(&self) -> BodyView {
        BodyView {
            seen: self.seen,
            login_form_cross_origin_host: opt_view(self.login_form_cross_origin_host),
            password_on_insecure_origin: self.password_on_insecure_origin,
            outdated_libraries: views(self.outdated_libraries@),
        }
    }
}

/// No body seen.
pub open spec fn no_body() -> BodyView {
    BodyView {
        seen: false,
        login_form_cross_origin_host: None,
        password_on_insecure_origin: false,
        outdated_libraries: Seq::empty(),
    }
}

/// A copy of an optional string.
fn clone_opt(o: &Option<String>) -> (r: Option<String>)
    ensures
        opt_view(r) == opt_view(*o),
{
    match o {
        Some(s) => Some(owned(s.as_str())),
        None => None,
    }
}

impl Clone for BodySnapshot {
    fn clone(&self) -> (r: Self)
        ensures
            r@ == self@,
    {
        BodySnapshot {
            seen: self.seen,
            login_form_cross_origin_host: clone_opt(&self.login_form_cross_origin_host),
            password_on_insecure_origin: self.password_on_insecure_origin,
            outdated_libraries: clone_strings(&self.outdated_libraries),
        }
    }
}

impl Default for BodySnapshot {
    fn default() -> (r: Self)
        ensures
            r@ == no_body(),
    {
        let r = BodySnapshot {
            seen: false,
            login_form_cross_origin_host: None,
            password_on_insecure_origin: false,
            outdated_libraries: Vec::new(),
        };
        assert(r@.outdated_libraries =~= Seq::<Seq<char>>::empty());
        r
    }
}

/// Everything attributed to one page host.
#[derive(Debug)]
pub struct HostSignals {
    /// Other hosts the page made requests to, each once.
    pub third_party_hosts: Vec<String>,
    /// A resource was requested over plain HTTP.
    pub mixed_content: bool,
    pub requests_seen: u64,
    /// Requests that matched a filter rule.
    pub requests_blocked: u64,
    pub headers: HeaderSnapshot,
    pub cert: CertSnapshot,
    pub body: BodySnapshot,
    /// Unix seconds of the last update.
    pub last_seen_at: u64,
}

/// A host's signals as plain values.
pub ghost struct SignalsView {
    pub third_party_hosts: Seq<Seq<char>>,
    pub mixed_content: bool,
    pub requests_seen: u64,
    pub requests_blocked: u64,
    pub headers: HeaderSnapshot,
    pub cert: CertView,
    pub body: BodyView,
    pub last_seen_at: u64,
}

impl View for HostSignals {
    type V = SignalsView;

    open spec fn view(&self) -> SignalsView {
        SignalsView {
            third_party_hosts: views(self.third_party_hosts@),
            mixed_content: self.mixed_content,
            requests_seen: self.requests_seen,
            requests_blocked: self.requests_blocked,
            headers: self.headers,
            cert: self.cert@,
            body: self.body@,
            last_seen_at: self.last_seen_at,
        }
    }
}

/// A host nothing was attributed to yet.
pub open spec fn no_signals() -> SignalsView {
    SignalsView {
        third_party_hosts: Seq::empty(),
        mixed_content: false,
        requests_seen: 0,
        requests_blocked: 0,
        headers: no_headers(),
        cert: no_cert(),
        body: no_body(),
        last_seen_at: 0,
    }
}

impl Clone for HostSignals {
    fn clone(&self) -> (r: Self)
        ensures
            r@ == self@,
    {
        HostSignals {
            third_party_hosts: clone_strings(&self.third_party_hosts),
            mixed_content: self.mixed_content,
            requests_seen: self.requests_seen,
            requests_blocked: self.requests_blocked,
            headers: self.headers,
            cert: self.cert.clone(),
            body: self.body.clone(),
            last_seen_at: self.last_seen_at,
        }
    }
}

impl Default for HostSignals {
    fn default() -> (r: Self)
        ensures
            r@ == no_signals(),
    {
        let r = HostSignals {
            third_party_hosts: Vec::new(),
            mixed_content: false,
            requests_seen: 0,
            requests_blocked: 0,
            headers: HeaderSnapshot::default(),
            cert: CertSnapshot::default(),
            body: BodySnapshot::default(),
            last_seen_at: 0,
        };
        assert(r@.third_party_hosts =~= Seq::<Seq<char>>::empty());
        r
    }
}

// ---------------------------------------------------------------------
// How each event changes a host's signals
// ---------------------------------------------------------------------

/// `x + 1`, saturating at `u64::MAX`.
pub open spec fn inc(x: u64) -> u64 {
    if x == u64::MAX {
        x
    } else {
        (x + 1) as u64
    }
}

/// A request from the page: counted, maybe as blocked; a third-party host
/// is remembered while there is room; a plain-HTTP request marks mixed
/// content.
pub open spec fn after_request(
    e: SignalsView,
    third_party: Option<Seq<char>>,
    blocked: bool,
    mixed: bool,
    now: u64,
) -> SignalsView {
    SignalsView {
        requests_seen: inc(e.requests_seen),
        requests_blocked: if blocked {
            inc(e.requests_blocked)
        } else {
            e.requests_blocked
        },
        third_party_hosts: match third_party {
            Some(h) => if e.third_party_hosts.len() < THIRD_PARTY_CAP
                && !e.third_party_hosts.contains(h) {
                e.third_party_hosts.push(h)
            } else {
                e.third_party_hosts
            },
            None => e.third_party_hosts,
        },
        mixed_content: e.mixed_content || mixed,
        last_seen_at: now,
        ..e
    }
}

/// An HTML response's security headers replace the recorded ones.
pub open spec fn after_response(e: SignalsView, h: HeaderSnapshot, now: u64) -> SignalsView {
    SignalsView { headers: h, last_seen_at: now, ..e }
}

/// `libs` with each of `more` added unless already there.
pub open spec fn merged_libraries(libs: Seq<Seq<char>>, more: Seq<Seq<char>>) -> Seq<Seq<char>>
    decreases more.len(),
{
    if more.len() == 0 {
        libs
    } else {
        let before = merged_libraries(libs, more.drop_last());
        if before.contains(more.last()) {
            before
        } else {
            before.push(more.last())
        }
    }
}

/// Body findings OR into the recorded ones.
pub open spec fn after_body(
    e: SignalsView,
    cross_origin: Option<Seq<char>>,
    password_insecure: bool,
    libs: Seq<Seq<char>>,
    now: u64,
) -> SignalsView {
    SignalsView {
        body: BodyView {
            seen: true,
            login_form_cross_origin_host: if cross_origin is Some {
                cross_origin
            } else {
                e.body.login_form_cross_origin_host
            },
            password_on_insecure_origin: e.body.password_on_insecure_origin
                || password_insecure,
            outdated_libraries: merged_libraries(e.body.outdated_libraries, libs),
        },
        last_seen_at: now,
        ..e
    }
}

/// A new certificate replaces the recorded one.
pub open spec fn after_cert(e: SignalsView, c: CertView, now: u64) -> SignalsView {
    SignalsView { cert: c, last_seen_at: now, ..e }
}

// ---------------------------------------------------------------------
// The store
// ---------------------------------------------------------------------

/// What is recorded for `key` in `m`, or nothing yet.
pub open spec fn current(m: Map<Seq<char>, SignalsView>, key: Seq<char>) -> SignalsView {
    if m.contains_key(key) {
        m[key]
    } else {
        no_signals()
    }
}

/// `k` is a least recently touched host of `m`.
pub open spec fn oldest(m: Map<Seq<char>, SignalsView>, k: Seq<char>) -> bool {
    m.contains_key(k) && forall|o: Seq<char>|
        m.contains_key(o) ==> m[k].last_seen_at <= #[trigger] m[o].last_seen_at
}

/// `after` is `before` with `key` set to `value`; a new key in a full
/// store first evicts a least recently touched host.
pub open spec fn stored(
    before: Map<Seq<char>, SignalsView>,
    after: Map<Seq<char>, SignalsView>,
    key: Seq<char>,
    value: SignalsView,
) -> bool {
    if before.contains_key(key) || before.len() < PAGE_CAP {
        after == before.insert(key, value)
    } else {
        exists|victim: Seq<char>|
            #[trigger] oldest(before, victim) && after == before.remove(victim).insert(key, value)
    }
}

/// The page a Referer names: its host, lowercased.
pub open spec fn referer_page(referer: Option<Seq<char>>) -> Option<Seq<char>> {
    match referer {
        Some(r) => match parsed_host(r) {
            Some(h) => Some(lower(h)),
            None => None,
        },
        None => None,
    }
}

/// The host of `req_url`, lowercased, when it is not `page`.
pub open spec fn third_party_of(req_url: Seq<char>, page: Seq<char>) -> Option<Seq<char>> {
    match parsed_host(req_url) {
        Some(h) => if lower(h) != page {
            Some(lower(h))
        } else {
            None
        },
        None => None,
    }
}

/// Whether `req_url` is fetched over plain HTTP.
pub open spec fn is_plain_http(req_url: Seq<char>) -> bool {
    parsed_scheme(req_url) == Some("http"@)
}

/// Whether a `Content-Type` names an HTML document.
pub open spec fn is_html(content_type: Option<Seq<char>>) -> bool {
    match content_type {
        Some(c) => has_sub(lower(c), "text/html"@),
        None => false,
    }
}

/// The views of the store's entries.
pub open spec fn entry_views(s: Seq<(String, HostSignals)>) -> Seq<(Seq<char>, SignalsView)> {
    s.map_values(|e: (String, HostSignals)| (e.0@, e.1@))
}

/// The optional view of an optional string slice.
pub open spec fn opt_str(o: Option<&str>) -> Option<Seq<char>> {
    match o {
        Some(s) => Some(s@),
        None => None,
    }
}

/// `after` is `before` once a request for `req_url` from the page `referer`
/// names was recorded at `now`; without such a page nothing changes.
pub open spec fn recorded_request(
    before: Map<Seq<char>, SignalsView>,
    after: Map<Seq<char>, SignalsView>,
    req_url: Seq<char>,
    referer: Option<Seq<char>>,
    blocked: bool,
    now: u64,
) -> bool {
    match referer_page(referer) {
        Some(page) => stored(
            before,
            after,
            page,
            after_request(
                current(before, page),
                third_party_of(req_url, page),
                blocked,
                is_plain_http(req_url),
                now,
            ),
        ),
        None => after == before,
    }
}

/// The header snapshot of an HTML response.
pub open spec fn seen_headers(
    csp: bool,
    hsts: bool,
    xfo: bool,
    xcto: bool,
    referrer_policy: bool,
    permissions_policy: bool,
    insecure_cookie: bool,
) -> HeaderSnapshot {
    HeaderSnapshot {
        seen: true,
        csp,
        hsts,
        xfo,
        xcto,
        referrer_policy,
        permissions_policy,
        insecure_cookie,
    }
}

/// `after` is `before` once a response for `req_url` with headers `h` was
/// recorded at `now`: only HTML documents of URLs with a host count.
pub open spec fn recorded_response(
    before: Map<Seq<char>, SignalsView>,
    after: Map<Seq<char>, SignalsView>,
    req_url: Seq<char>,
    content_type: Option<Seq<char>>,
    h: HeaderSnapshot,
    now: u64,
) -> bool {
    if !is_html(content_type) {
        after == before
    } else {
        match parsed_host(req_url) {
            Some(raw) => stored(
                before,
                after,
                lower(raw),
                after_response(current(before, lower(raw)), h, now),
            ),
            None => after == before,
        }
    }
}

/// `after` is `before` once body findings for `host` were merged in at
/// `now`; a blank host records nothing.
pub open spec fn recorded_body(
    before: Map<Seq<char>, SignalsView>,
    after: Map<Seq<char>, SignalsView>,
    host: Seq<char>,
    cross_origin: Option<Seq<char>>,
    password_insecure: bool,
    libs: Seq<Seq<char>>,
    now: u64,
) -> bool {
    let key = lower(trimmed(host));
    if key.len() == 0 {
        after == before
    } else {
        stored(
            before,
            after,
            key,
            after_body(current(before, key), cross_origin, password_insecure, libs, now),
        )
    }
}

/// `after` is `before` once `cert` was recorded for `host` at `now`; a
/// blank host records nothing.
pub open spec fn recorded_cert(
    before: Map<Seq<char>, SignalsView>,
    after: Map<Seq<char>, SignalsView>,
    host: Seq<char>,
    cert: CertView,
    now: u64,
) -> bool {
    let key = lower(trimmed(host));
    if key.len() == 0 {
        after == before
    } else {
        stored(before, after, key, after_cert(current(before, key), cert, now))
    }
}

/// Signals of every tracked page host.
pub struct SecurityStore {
    entries: Vec<(String, HostSignals)>,
}

impl View for SecurityStore {
    type V = Map<Seq<char>, SignalsView>;

    closed spec fn view(&self) -> Map<Seq<char>, SignalsView> {
        assoc_map(entry_views(self.entries@))
    }
}

impl Default for SecurityStore {
    /// An empty store.
    fn default() -> (r: Self)
        ensures
            r@ == Map::<Seq<char>, SignalsView>::empty(),
    {
        let r = SecurityStore { entries: Vec::new() };
        assert(entry_views(r.entries@) =~= Seq::<(Seq<char>, SignalsView)>::empty());
        assert(r@ =~= Map::<Seq<char>, SignalsView>::empty());
        r
    }
}

/// Position of the entry for `key`.
fn find_entry(entries: &Vec<(String, HostSignals)>, key: &str) -> (r: Option<usize>)
    requires
        distinct_keys(entry_views(entries@)),
    ensures
        match r {
            Some(k) => k < entries@.len() && entries@[k as int].0@ == key@
                && assoc_map(entry_views(entries@)).contains_key(key@)
                && assoc_map(entry_views(entries@))[key@] == entries@[k as int].1@,
            None => !assoc_map(entry_views(entries@)).contains_key(key@),
        },
{
    let kc = chars_of(key);
    let mut i: usize = 0;
    while i < entries.len()
        invariant
            0 <= i <= entries@.len(),
            kc@ == key@,
            distinct_keys(entry_views(entries@)),
            forall|j: int| 0 <= j < i ==> entries@[j].0@ != key@,
        decreases entries.len() - i,
    {
        let c = chars_of(entries[i].0.as_str());
        if crate::text::chars_eq(&c, &kc) {
            proof {
                let ev = entry_views(entries@);
                lemma_lookup_entries(ev);
                assert(ev[i as int] == (entries@[i as int].0@, entries@[i as int].1@));
                assert(lookup(ev, ev[i as int].0) == Some(ev[i as int].1));
            }
            return Some(i);
        }
        i += 1;
    }
    proof {
        lemma_lookup_entries(entry_views(entries@));
        if assoc_map(entry_views(entries@)).contains_key(key@) {
            let j = choose|j: int|
                0 <= j < entry_views(entries@).len() && entry_views(entries@)[j].0 == key@;
            assert(entries@[j].0@ == key@);
        }
    }
    None
}

/// Position of a least recently touched entry of a non-empty store.
fn oldest_entry(entries: &Vec<(String, HostSignals)>) -> (r: usize)
    requires
        entries@.len() > 0,
    ensures
        r < entries@.len(),
        forall|j: int|
            0 <= j < entries@.len() ==> entries@[r as int].1.last_seen_at
                <= #[trigger] entries@[j].1.last_seen_at,
{
    let mut best: usize = 0;
    let mut i: usize = 1;
    while i < entries.len()
        invariant
            1 <= i <= entries@.len(),
            best < i,
            forall|j: int|
                0 <= j < i ==> entries@[best as int].1.last_seen_at
                    <= #[trigger] entries@[j].1.last_seen_at,
        decreases entries.len() - i,
    {
        if entries[i].1.last_seen_at < entries[best].1.last_seen_at {
            best = i;
        }
        i += 1;
    }
    best
}

/// The recorded signals of `key`, or fresh ones.
fn current_of(entries: &Vec<(String, HostSignals)>, key: &str) -> (r: HostSignals)
    requires
        distinct_keys(entry_views(entries@)),
    ensures
        r@ == current(assoc_map(entry_views(entries@)), key@),
{
    match find_entry(entries, key) {
        Some(k) => entries[k].1.clone(),
        None => HostSignals::default(),
    }
}

/// Set `key`'s signals to `value`, evicting a least recently touched host
/// first when a new key finds the store full.
fn store(entries: &mut Vec<(String, HostSignals)>, key: String, value: HostSignals)
    requires
        distinct_keys(entry_views(old(entries)@)),
        old(entries)@.len() <= PAGE_CAP,
    ensures
        distinct_keys(entry_views(final(entries)@)),
        final(entries)@.len() <= PAGE_CAP,
        stored(
            assoc_map(entry_views(old(entries)@)),
            assoc_map(entry_views(final(entries)@)),
            key@,
            value@,
        ),
{
    let ghost before = entry_views(entries@);
    let ghost m0 = assoc_map(before);
    let ghost kv = key@;
    let ghost vv = value@;
    proof {
        lemma_assoc_len(before);
    }
    match find_entry(entries, key.as_str()) {
        Some(k) => {
            let ghost old_entries = entries@;
            entries.set(k, (key, value));
            proof {
                assert(entry_views(entries@) =~= before.update(k as int, (before[k as int].0, vv)));
                lemma_lookup_update(before, k as int, vv);
            }
        },
        None => {
            if entries.len() >= PAGE_CAP {
                let v = oldest_entry(entries);
                let ghost victim = entries@[v as int].0@;
                proof {
                    lemma_lookup_entries(before);
                    assert(before[v as int].0 == victim);
                    assert forall|o: Seq<char>| m0.contains_key(o) implies m0[victim].last_seen_at
                        <= #[trigger] m0[o].last_seen_at by {
                        let j = choose|j: int| 0 <= j < before.len() && before[j].0 == o;
                        assert(m0[o] == before[j].1);
                        assert(m0[victim] == before[v as int].1);
                        assert(entries@[j].1.last_seen_at >= entries@[v as int].1.last_seen_at);
                    }
                    assert(oldest(m0, victim));
                }
                let ghost pre = entries@;
                entries.remove(v);
                proof {
                    assert(entry_views(entries@) =~= before.remove(v as int));
                    lemma_lookup_remove(before, v as int);
                }
                let ghost mid = entry_views(entries@);
                let ghost pre_push = entries@;
                entries.push((key, value));
                proof {
                    assert(entry_views(entries@) =~= mid.push((kv, vv)));
                    assert(!assoc_map(mid).contains_key(kv));
                    lemma_lookup_push(mid, kv, vv);
                    assert(assoc_map(entry_views(entries@)) == m0.remove(victim).insert(kv, vv));
                }
            } else {
                let ghost pre_push = entries@;
                entries.push((key, value));
                proof {
                    assert(entry_views(entries@) =~= before.push((kv, vv)));
                    lemma_lookup_push(before, kv, vv);
                }
            }
        },
    }
}

/// The host of `req_url`, lowercased, when it is not `page`.
fn third_party_host(req_url: &str, page: &String) -> (r: Option<String>)
    ensures
        opt_view(r) == third_party_of(req_url@, page@),
{
    match url_host(req_url) {
        Some(h) => {
            let lh = lowercase(h.as_str());
            if crate::text::str_eq(lh.as_str(), page.as_str()) {
                None
            } else {
                Some(lh)
            }
        },
        None => None,
    }
}

/// Whether `req_url` is fetched over plain HTTP.
fn plain_http(req_url: &str) -> (r: bool)
    ensures
        r == is_plain_http(req_url@),
{
    match url_scheme(req_url) {
        Some(s) => crate::text::str_eq(s.as_str(), "http"),
        None => false,
    }
}

/// `e` after one more request, per `after_request`.
fn with_request(e: HostSignals, third_party: Option<String>, blocked: bool, mixed: bool, now: u64) -> (r: HostSignals)
    ensures
        r@ == after_request(e@, opt_view(third_party), blocked, mixed, now),
{
    let mut e = e;
    let ghost e0 = e@;
    let ghost tpv = opt_view(third_party);
    e.requests_seen = e.requests_seen.saturating_add(1);
    if blocked {
        e.requests_blocked = e.requests_blocked.saturating_add(1);
    }
    match third_party {
        Some(tp) => {
            if e.third_party_hosts.len() < THIRD_PARTY_CAP {
                let tc = chars_of(tp.as_str());
                match position_of(&e.third_party_hosts, &tc) {
                    None => {
                        let ghost hs = e.third_party_hosts@;
                        e.third_party_hosts.push(tp);
                        assert(views(e.third_party_hosts@) =~= views(hs).push(tc@));
                    },
                    Some(k) => {
                        assert(views(e.third_party_hosts@)[k as int] == tc@);
                    },
                }
            }
        },
        None => {},
    }
    if mixed {
        e.mixed_content = true;
    }
    e.last_seen_at = now;
    proof {
        let want = after_request(e0, tpv, blocked, mixed, now);
        assert(e@.third_party_hosts == want.third_party_hosts);
        assert(e@ == want);
    }
    e
}

/// Whether a `Content-Type` names an HTML document.
fn html_content(content_type: Option<&str>) -> (r: bool)
    ensures
        r == is_html(opt_str(content_type)),
{
    match content_type {
        Some(c) => {
            let l = lowercase(c);
            let lc = chars_of(l.as_str());
            contains_str(&lc, "text/html")
        },
        None => false,
    }
}

/// `libs` with each of `more` added unless already there.
fn merge_libraries(libs: &mut Vec<String>, more: &Vec<String>)
    ensures
        views(final(libs)@) == merged_libraries(views(old(libs)@), views(more@)),
{
    let ghost start = views(libs@);
    let mut i: usize = 0;
    while i < more.len()
        invariant
            0 <= i <= more@.len(),
            views(libs@) == merged_libraries(start, views(more@).take(i as int)),
        decreases more.len() - i,
    {
        let mc = chars_of(more[i].as_str());
        proof {
            assert(views(more@).take(i + 1).drop_last() =~= views(more@).take(i as int));
            assert(views(more@).take(i + 1).last() == more@[i as int]@);
        }
        match position_of(libs, &mc) {
            None => {
                let ghost before = libs@;
                libs.push(owned(more[i].as_str()));
                assert(views(libs@) =~= views(before).push(mc@));
            },
            Some(k) => {
                assert(views(libs@)[k as int] == mc@);
            },
        }
        i += 1;
    }
    assert(views(more@).take(more@.len() as int) =~= views(more@));
}

/// `e` after body findings, per `after_body`.
fn with_body(e: HostSignals, findings: BodyFindings, now: u64) -> (r: HostSignals)
    ensures
        r@ == after_body(
            e@,
            findings.cross_origin_host(),
            findings.password_on_insecure_origin,
            findings.libraries(),
            now,
        ),
{
    let mut e = e;
    let ghost e0 = e@;
    let ghost fc = findings.cross_origin_host();
    let ghost fl = findings.libraries();
    e.body.seen = true;
    let BodyFindings { login_form_cross_origin, password_on_insecure_origin, outdated_libraries } =
        findings;
    if login_form_cross_origin.is_some() {
        e.body.login_form_cross_origin_host = login_form_cross_origin;
    }
    if password_on_insecure_origin {
        e.body.password_on_insecure_origin = true;
    }
    merge_libraries(&mut e.body.outdated_libraries, &outdated_libraries);
    e.last_seen_at = now;
    proof {
        let want = after_body(e0, fc, password_on_insecure_origin, fl, now);
        assert(e@.body == want.body);
        assert(e@ == want);
    }
    e
}

impl SecurityStore {
    #[verifier::type_invariant]
    closed spec fn keys_distinct(&self) -> bool {
        distinct_keys(entry_views(self.entries@)) && self.entries@.len() <= PAGE_CAP
    }

    /// How many page hosts are tracked; never more than `PAGE_CAP`.
    pub fn len(&self) -> (r: usize)
        ensures
            r == self@.len(),
            r <= PAGE_CAP,
            self@.dom().finite(),
    {
        proof {
            use_type_invariant(self);
            lemma_assoc_len(entry_views(self.entries@));
        }
        self.entries.len()
    }

    /// Attribute a request for `req_url` to the page its `referer` names,
    /// at time `now`. Without a Referer host nothing is recorded.
    pub fn record_request_at(&mut self, req_url: &str, referer: Option<&str>, blocked: bool, now: u64)
        ensures
            recorded_request(old(self)@, final(self)@, req_url@, opt_str(referer), blocked, now),
    {
        proof {
            use_type_invariant(&*self);
        }
        let page = match referer {
            Some(r) => match url_host(r) {
                Some(h) => lowercase(h.as_str()),
                None => return ,
            },
            None => return ,
        };
        let third_party = third_party_host(req_url, &page);
        let mixed = plain_http(req_url);
        let mut entries: Vec<(String, HostSignals)> = Vec::new();
        std::mem::swap(&mut entries, &mut self.entries);
        let e0 = current_of(&entries, page.as_str());
        let e = with_request(e0, third_party, blocked, mixed, now);
        store(&mut entries, page, e);
        self.entries = entries;
    }

    /// `record_request_at` at the current time.
    pub fn record_request(&mut self, req_url: &str, referer: Option<&str>, blocked: bool)
        ensures
            exists|now: u64|
                #[trigger] recorded_request(
                    old(self)@,
                    final(self)@,
                    req_url@,
                    opt_str(referer),
                    blocked,
                    now,
                ),
    {
        let now = now_secs();
        self.record_request_at(req_url, referer, blocked, now);
        assert(recorded_request(old(self)@, self@, req_url@, opt_str(referer), blocked, now));
    }

    /// Record the security headers of the response to `req_url` at `now`,
    /// if it is an HTML document of a URL with a host.
    pub fn record_response_at(
        &mut self,
        req_url: &str,
        content_type: Option<&str>,
        has_csp: bool,
        has_hsts: bool,
        has_xfo: bool,
        has_xcto: bool,
        has_referrer_policy: bool,
        has_permissions_policy: bool,
        insecure_cookie: bool,
        now: u64,
    )
        ensures
            recorded_response(
                old(self)@,
                final(self)@,
                req_url@,
                opt_str(content_type),
                seen_headers(
                    has_csp,
                    has_hsts,
                    has_xfo,
                    has_xcto,
                    has_referrer_policy,
                    has_permissions_policy,
                    insecure_cookie,
                ),
                now,
            ),
    {
        proof {
            use_type_invariant(&*self);
        }
        if !html_content(content_type) {
            return ;
        }
        let host = match url_host(req_url) {
            Some(h) => lowercase(h.as_str()),
            None => return ,
        };
        let mut entries: Vec<(String, HostSignals)> = Vec::new();
        std::mem::swap(&mut entries, &mut self.entries);
        let mut e = current_of(&entries, host.as_str());
        let ghost e0 = e@;
        e.headers = HeaderSnapshot {
            seen: true,
            csp: has_csp,
            hsts: has_hsts,
            xfo: has_xfo,
            xcto: has_xcto,
            referrer_policy: has_referrer_policy,
            permissions_policy: has_permissions_policy,
            insecure_cookie,
        };
        e.last_seen_at = now;
        proof {
            let h = seen_headers(
                has_csp,
                has_hsts,
                has_xfo,
                has_xcto,
                has_referrer_policy,
                has_permissions_policy,
                insecure_cookie,
            );
            assert(e@ == after_response(e0, h, now));
        }
        store(&mut entries, host, e);
        self.entries = entries;
    }

    /// `record_response_at` at the current time.
    pub fn record_response(
        &mut self,
        req_url: &str,
        content_type: Option<&str>,
        has_csp: bool,
        has_hsts: bool,
        has_xfo: bool,
        has_xcto: bool,
        has_referrer_policy: bool,
        has_permissions_policy: bool,
        insecure_cookie: bool,
    )
        ensures
            exists|now: u64|
                #[trigger] recorded_response(
                    old(self)@,
                    final(self)@,
                    req_url@,
                    opt_str(content_type),
                    seen_headers(
                        has_csp,
                        has_hsts,
                        has_xfo,
                        has_xcto,
                        has_referrer_policy,
                        has_permissions_policy,
                        insecure_cookie,
                    ),
                    now,
                ),
    {
        let now = now_secs();
        self.record_response_at(
            req_url,
            content_type,
            has_csp,
            has_hsts,
            has_xfo,
            has_xcto,
            has_referrer_policy,
            has_permissions_policy,
            insecure_cookie,
            now,
        );
        assert(recorded_response(
            old(self)@,
            self@,
            req_url@,
            opt_str(content_type),
            seen_headers(
                has_csp,
                has_hsts,
                has_xfo,
                has_xcto,
                has_referrer_policy,
                has_permissions_policy,
                insecure_cookie,
            ),
            now,
        ));
    }

    /// Merge body findings for `host` (trimmed, lowercased) at `now`:
    /// signals OR in and stay until the store is cleared.
    pub fn record_body_at(&mut self, host: &str, findings: BodyFindings, now: u64)
        ensures
            recorded_body(
                old(self)@,
                final(self)@,
                host@,
                findings.cross_origin_host(),
                findings.password_on_insecure_origin,
                findings.libraries(),
                now,
            ),
    {
        proof {
            use_type_invariant(&*self);
        }
        let key = trim_lowercase(host);
        if key.as_str().is_empty() {
            proof {
                assert(key@.len() == 0);
            }
            return ;
        }
        assert(key@.len() > 0);
        let mut entries: Vec<(String, HostSignals)> = Vec::new();
        std::mem::swap(&mut entries, &mut self.entries);
        let e0 = current_of(&entries, key.as_str());
        let e = with_body(e0, findings, now);
        store(&mut entries, key, e);
        self.entries = entries;
    }

    /// `record_body_at` at the current time.
    pub fn record_body(&mut self, host: &str, findings: BodyFindings)
        ensures
            exists|now: u64|
                #[trigger] recorded_body(
                    old(self)@,
                    final(self)@,
                    host@,
                    findings.cross_origin_host(),
                    findings.password_on_insecure_origin,
                    findings.libraries(),
                    now,
                ),
    {
        let ghost fc = findings.cross_origin_host();
        let ghost fp = findings.password_on_insecure_origin;
        let ghost fl = findings.libraries();
        let now = now_secs();
        self.record_body_at(host, findings, now);
        assert(recorded_body(old(self)@, self@, host@, fc, fp, fl, now));
    }

    /// Replace the certificate snapshot of `host` (trimmed, lowercased) at
    /// `now`.
    pub fn record_cert_at(&mut self, host: &str, cert: CertSnapshot, now: u64)
        ensures
            recorded_cert(old(self)@, final(self)@, host@, cert@, now),
    {
        proof {
            use_type_invariant(&*self);
        }
        let key = trim_lowercase(host);
        if key.as_str().is_empty() {
            proof {
                assert(key@.len() == 0);
            }
            return ;
        }
        assert(key@.len() > 0);
        let mut entries: Vec<(String, HostSignals)> = Vec::new();
        std::mem::swap(&mut entries, &mut self.entries);
        let mut e = current_of(&entries, key.as_str());
        let ghost e0 = e@;
        let ghost cv = cert@;
        e.cert = cert;
        e.last_seen_at = now;
        assert(e@ == after_cert(e0, cv, now));
        store(&mut entries, key, e);
        self.entries = entries;
    }

    /// `record_cert_at` at the current time.
    pub fn record_cert(&mut self, host: &str, cert: CertSnapshot)
        ensures
            exists|now: u64| #[trigger] recorded_cert(old(self)@, final(self)@, host@, cert@, now),
    {
        let ghost cv = cert@;
        let now = now_secs();
        self.record_cert_at(host, cert, now);
        assert(recorded_cert(old(self)@, self@, host@, cv, now));
    }

    /// Everything attributed to `host` (lowercased); fresh signals for a
    /// host never seen.
    pub fn signals_for(&self, host: &str) -> (r: HostSignals)
        ensures
            r@ == current(self@, lower(host@)),
    {
        proof {
            use_type_invariant(self);
        }
        let key = lowercase(host);
        current_of(&self.entries, key.as_str())
    }

    /// Forget every host.
    pub fn clear(&mut self)
        ensures
            final(self)@ == Map::<Seq<char>, SignalsView>::empty(),
    {
        self.entries = Vec::new();
        assert(entry_views(self.entries@) =~= Seq::<(Seq<char>, SignalsView)>::empty());
        assert(self@ =~= Map::<Seq<char>, SignalsView>::empty());
    }
}

/// What was just stored for a host is what is reported for it; every other
/// host keeps what it had, except that a new host arriving at a full store
/// drops one least recently touched host.
pub proof fn lemma_stored_then_current(
    before: Map<Seq<char>, SignalsView>,
    after: Map<Seq<char>, SignalsView>,
    key: Seq<char>,
    value: SignalsView,
    other: Seq<char>,
)
    requires
        stored(before, after, key, value),
        other != key,
    ensures
        current(after, key) == value,
        after.contains_key(other) ==> before.contains_key(other) && after[other] == before[other],
        before.contains_key(other) && !after.contains_key(other) ==> !before.contains_key(key)
            && oldest(before, other),
{
    if !(before.contains_key(key) || before.len() < PAGE_CAP) {
        let victim = choose|victim: Seq<char>|
            #[trigger] oldest(before, victim) && after == before.remove(victim).insert(key, value);
        assert(after == before.remove(victim).insert(key, value));
    }
}

/// A request never lets a page hold more than `THIRD_PARTY_CAP` third-party
/// hosts, nor one host twice, and never lowers its counters.
pub proof fn lemma_request_keeps_bounds(
    e: SignalsView,
    third_party: Option<Seq<char>>,
    blocked: bool,
    mixed: bool,
    now: u64,
)
    requires
        e.third_party_hosts.len() <= THIRD_PARTY_CAP,
        e.third_party_hosts.no_duplicates(),
    ensures
        after_request(e, third_party, blocked, mixed, now).third_party_hosts.len() <= THIRD_PARTY_CAP,
        after_request(e, third_party, blocked, mixed, now).third_party_hosts.no_duplicates(),
        after_request(e, third_party, blocked, mixed, now).requests_seen >= e.requests_seen,
        after_request(e, third_party, blocked, mixed, now).requests_blocked >= e.requests_blocked,
{
    let a = after_request(e, third_party, blocked, mixed, now);
    if let Some(h) = third_party {
        if e.third_party_hosts.len() < THIRD_PARTY_CAP && !e.third_party_hosts.contains(h) {
            let t = e.third_party_hosts;
            assert forall|i: int, j: int|
                0 <= i < t.push(h).len() && 0 <= j < t.push(h).len() && i != j implies t.push(h)[i]
                != t.push(h)[j] by {
                if i == t.len() {
                    assert(t.push(h)[j] == t[j]);
                } else if j == t.len() {
                    assert(t.push(h)[i] == t[i]);
                } else {
                    assert(t.push(h)[i] == t[i] && t.push(h)[j] == t[j]);
                }
            }
        }
    }
}

/// Body signals only accumulate: a flagged password field or cross-origin
/// form stays flagged, and every library reported before is still listed.
pub proof fn lemma_body_signals_accumulate(
    e: SignalsView,
    cross_origin: Option<Seq<char>>,
    password_insecure: bool,
    libs: Seq<Seq<char>>,
    now: u64,
)
    ensures
        e.body.password_on_insecure_origin ==> after_body(
            e,
            cross_origin,
            password_insecure,
            libs,
            now,
        ).body.password_on_insecure_origin,
        e.body.login_form_cross_origin_host is Some ==> after_body(
            e,
            cross_origin,
            password_insecure,
            libs,
            now,
        ).body.login_form_cross_origin_host is Some,
        forall|l: Seq<char>|
            e.body.outdated_libraries.contains(l) || libs.contains(l) ==> #[trigger] after_body(
                e,
                cross_origin,
                password_insecure,
                libs,
                now,
            ).body.outdated_libraries.contains(l),
{
    lemma_merged_libraries_contains(e.body.outdated_libraries, libs);
}

/// Merging keeps every old library and adds every new one.
proof fn lemma_merged_libraries_contains(libs: Seq<Seq<char>>, more: Seq<Seq<char>>)
    ensures
        forall|l: Seq<char>|
            libs.contains(l) || more.contains(l) ==> #[trigger] merged_libraries(libs, more).contains(l),
    decreases more.len(),
{
    if more.len() > 0 {
        lemma_merged_libraries_contains(libs, more.drop_last());
        let before = merged_libraries(libs, more.drop_last());
        assert forall|l: Seq<char>|
            libs.contains(l) || more.contains(l) implies #[trigger] merged_libraries(libs, more).contains(l) by {
            if more.contains(l) && l != more.last() {
                let i = choose|i: int| 0 <= i < more.len() && more[i] == l;
                assert(more.drop_last()[i] == l);
            }
            if !before.contains(more.last()) {
                if before.contains(l) {
                    let i = choose|i: int| 0 <= i < before.len() && before[i] == l;
                    assert(before.push(more.last())[i] == l);
                }
                assert(before.push(more.last())[before.len() as int] == more.last());
            }
        }
    }
}

} // verus!
