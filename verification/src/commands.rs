//! What the shell's commands hand the UI, and the decisions inside them:
//! the engine picker, the dashboard summary, the filter-list rows, how
//! many recent blocks hit a host, and the trust verdict for a page.
//! Reading the settings database, the cache files and the clock is the
//! shell's work; it passes the values in.

use vstd::prelude::*;

use crate::list_loader::FilterList;
use crate::proxy::{BlockLog, BlockedEntry, BLOCK_LOG_CAPACITY};
use crate::reputation::ReputationStore;
use crate::ring::newest_first;
use crate::search::{all_engines, engine_id, engine_name, SearchEngine};
use crate::security::{HostSignals, SecurityStore};
use crate::text::{
    chars_of, ends_with, has_suffix, lower, lowercase, owned, push_char, push_str, str_eq,
    trim_lowercase, trimmed,
};
use crate::trust::{assessment, evaluate_at, scored_host, scored_scheme, TrustAssessment};
use crate::urls::{parsed_host, parsed_host_is_ipv4, url_host};

verus! {

/// The proxy's state as the UI shows it.
#[derive(Debug)]
pub struct ProxyStatus {
    /// Whether the proxy listener is up.
    pub running: bool,
    /// The port the proxy is bound to.
    pub port: u16,
    /// Whether filter matching is active.
    pub filters_enabled: bool,
    /// Embedded-Tor bootstrap state: `""`, `"running"`, `"ready"` or
    /// `"failed:<message>"`.
    pub tor_bootstrap: String,
}

/// One choice in the search-engine picker.
#[derive(Debug)]
pub struct EngineOption {
    pub id: String,
    pub name: String,
}

/// The picker's choices: every engine, in the order of
/// `SearchEngine::all`, with its id and display name.
pub fn engine_options() -> (r: Vec<EngineOption>)
    ensures
        r@.len() == all_engines().len(),
        forall|i: int|
            0 <= i < r@.len() ==> (#[trigger] r@[i]).id@ == engine_id(all_engines()[i])
                && r@[i].name@ == engine_name(all_engines()[i]),
{
    let all = SearchEngine::all();
    let mut r: Vec<EngineOption> = Vec::new();
    let mut i: usize = 0;
    while i < all.len()
        invariant
            0 <= i <= all@.len(),
            all@ == all_engines(),
            r@.len() == i,
            forall|j: int|
                0 <= j < i ==> (#[trigger] r@[j]).id@ == engine_id(all_engines()[j])
                    && r@[j].name@ == engine_name(all_engines()[j]),
        decreases all.len() - i,
    {
        let e = all[i];
        r.push(EngineOption { id: owned(e.id()), name: owned(e.display_name()) });
        i += 1;
    }
    r
}

/// The Tor routing settings, and what the running proxy was booted with
/// (`"direct"`, `"socks5:<addr>"` or `"built-in-tor"`).
#[derive(Debug)]
pub struct TorSettings {
    /// Whether the external SOCKS5 upstream is on.
    pub enabled: bool,
    /// The saved SOCKS5 address.
    pub proxy_addr: String,
    /// Whether the embedded Tor client is chosen over the SOCKS5 endpoint.
    pub built_in: bool,
    /// Whether this build carries the embedded Tor client.
    pub built_in_supported: bool,
    pub applied_mode: String,
}

/// What new Tor settings are refused with: an address that does not read
/// as `host:port` while SOCKS5 is on (`addr_error` is the parser's
/// message, `None` when it reads), then the embedded client on a build
/// without it.
pub open spec fn tor_settings_refusal(
    enabled: bool,
    addr_error: Option<Seq<char>>,
    built_in: bool,
    built_in_supported: bool,
) -> Option<Seq<char>> {
    if enabled && addr_error is Some {
        Some("proxy_addr must be host:port (e.g. 127.0.0.1:9050): "@ + addr_error->0)
    } else if built_in && !built_in_supported {
        Some("this build was compiled without built-in Tor support"@)
    } else {
        None
    }
}

/// Check new Tor settings before they are saved.
pub fn check_tor_settings(
    enabled: bool,
    addr_error: Option<&str>,
    built_in: bool,
    built_in_supported: bool,
) -> (r: Result<(), String>)
    ensures
        r is Ok <==> tor_settings_refusal(
            enabled,
            match addr_error {
                Some(e) => Some(e@),
                None => None,
            },
            built_in,
            built_in_supported,
        ) is None,
        r matches Err(m) ==> Some(m@) == tor_settings_refusal(
            enabled,
            match addr_error {
                Some(e) => Some(e@),
                None => None,
            },
            built_in,
            built_in_supported,
        ),
{
    if enabled {
        if let Some(e) = addr_error {
            let mut m = owned("proxy_addr must be host:port (e.g. 127.0.0.1:9050): ");
            push_str(&mut m, e);
            return Err(m);
        }
    }
    if built_in && !built_in_supported {
        return Err(owned("this build was compiled without built-in Tor support"));
    }
    Ok(())
}

/// The CA's trust state as the UI shows it.
#[derive(Debug)]
pub struct CaTrustStatus {
    /// Where the certificate lives on disk.
    pub cert_path: String,
    /// Whether the OS trust store recognises the CA.
    pub trusted: bool,
    /// Whether an automatic install can be tried on this platform.
    pub auto_install_supported: bool,
}

/// What a refresh of the filter lists (or the reputation feeds) did.
#[derive(Debug)]
pub struct RefreshResult {
    pub lists_ok: usize,
    pub lists_failed: usize,
    pub patterns_active: usize,
}

/// The sum of `s`.
pub open spec fn total(s: Seq<usize>) -> nat
    decreases s.len(),
{
    if s.len() == 0 {
        0
    } else {
        total(s.drop_last()) + s.last() as nat
    }
}

/// How many patterns are active, given each pattern set's size.
pub fn patterns_active(set_sizes: &[usize]) -> (r: usize)
    requires
        total(set_sizes@) <= usize::MAX,
    ensures
        r == total(set_sizes@),
{
    let mut sum: usize = 0;
    let mut i: usize = 0;
    while i < set_sizes.len()
        invariant
            0 <= i <= set_sizes@.len(),
            total(set_sizes@) <= usize::MAX,
            sum == total(set_sizes@.take(i as int)),
        decreases set_sizes.len() - i,
    {
        assert(set_sizes@.take(i + 1).drop_last() =~= set_sizes@.take(i as int));
        proof {
            lemma_total_prefix(set_sizes@, i + 1);
        }
        sum = sum + set_sizes[i];
        i += 1;
    }
    assert(set_sizes@.take(set_sizes@.len() as int) =~= set_sizes@);
    sum
}

/// A prefix never sums to more than the whole.
proof fn lemma_total_prefix(s: Seq<usize>, n: int)
    requires
        0 <= n <= s.len(),
    ensures
        total(s.take(n)) <= total(s),
    decreases s.len() - n,
{
    if n < s.len() {
        lemma_total_prefix(s, n + 1);
        assert(s.take(n + 1).drop_last() =~= s.take(n));
    } else {
        assert(s.take(n) =~= s);
    }
}

/// The dashboard's one-liner.
#[derive(Debug)]
pub struct SystemSummary {
    pub uptime_secs: u64,
    pub patterns_active: usize,
    pub lists_total: usize,
    pub last_refresh_secs: Option<u64>,
}

/// The newest of the times present in `s`, if any is.
pub open spec fn newest(s: Seq<Option<u64>>) -> Option<u64>
    decreases s.len(),
{
    if s.len() == 0 {
        None
    } else {
        let rest = newest(s.drop_last());
        match s.last() {
            None => rest,
            Some(t) => match rest {
                Some(u) => Some(if u >= t { u } else { t }),
                None => Some(t),
            },
        }
    }
}

/// Seconds since `started_at` (0 when `now` is earlier, or the start
/// is unknown).
pub open spec fn uptime(started_at: Option<u64>, now: u64) -> u64 {
    match started_at {
        Some(t) => if now >= t {
            (now - t) as u64
        } else {
            0
        },
        None => 0,
    }
}

/// The summary at `now`: the uptime, the active pattern and list counts,
/// and the newest modification time among the lists' cache files
/// (`None` for a list not cached).
pub fn system_summary(
    started_at: Option<u64>,
    now: u64,
    patterns_active: usize,
    lists_total: usize,
    cache_mtimes: &[Option<u64>],
) -> (r: SystemSummary)
    ensures
        r.uptime_secs == uptime(started_at, now),
        r.patterns_active == patterns_active,
        r.lists_total == lists_total,
        r.last_refresh_secs == newest(cache_mtimes@),
{
    let uptime_secs = match started_at {
        Some(t) => now.saturating_sub(t),
        None => 0,
    };
    let mut last: Option<u64> = None;
    let mut i: usize = 0;
    while i < cache_mtimes.len()
        invariant
            0 <= i <= cache_mtimes@.len(),
            last == newest(cache_mtimes@.take(i as int)),
        decreases cache_mtimes.len() - i,
    {
        assert(cache_mtimes@.take(i + 1).drop_last() =~= cache_mtimes@.take(i as int));
        last = match cache_mtimes[i] {
            None => last,
            Some(t) => match last {
                Some(u) => Some(if u >= t { u } else { t }),
                None => Some(t),
            },
        };
        i += 1;
    }
    assert(cache_mtimes@.take(cache_mtimes@.len() as int) =~= cache_mtimes@);
    SystemSummary { uptime_secs, patterns_active, lists_total, last_refresh_secs: last }
}

/// A filter list and its cache state, for the settings page.
#[derive(Debug)]
pub struct FilterListEntry {
    pub name: String,
    pub url: String,
    /// Whether a cached copy is on disk.
    pub cached: bool,
    /// When the cached copy was last written; `None` when there is none.
    pub cached_at: Option<u64>,
}

/// The settings row for `list`, whose cache file was last modified at
/// `cached_at` (`None`: no cached copy).
pub fn filter_list_entry(list: FilterList, cached_at: Option<u64>) -> (r: FilterListEntry)
    ensures
        r.name@ == list.name@,
        r.url@ == list.url@,
        r.cached == cached_at is Some,
        r.cached_at == cached_at,
{
    FilterListEntry { cached: cached_at.is_some(), cached_at, name: list.name, url: list.url }
}

/// How many recent blocks the trust history shows: 48 unless asked,
/// and never fewer than 2 or more than 500.
pub open spec fn history_take(limit: Option<usize>) -> usize {
    let l = match limit {
        Some(l) => l,
        None => 48,
    };
    if l < 2 {
        2
    } else if l > 500 {
        500
    } else {
        l
    }
}

/// The number of trust samples to return for a history request.
pub fn trust_history_take(limit: Option<usize>) -> (r: usize)
    ensures
        r == history_take(limit),
        2 <= r <= 500,
{
    let l = match limit {
        Some(l) => l,
        None => 48,
    };
    if l < 2 {
        2
    } else if l > 500 {
        500
    } else {
        l
    }
}

/// The number of recent blocks to return: 100 unless asked, and never
/// more than the log holds.
pub fn recent_blocks_take(limit: Option<usize>) -> (r: usize)
    ensures
        r == (match limit {
            Some(l) => if l < BLOCK_LOG_CAPACITY {
                l
            } else {
                BLOCK_LOG_CAPACITY
            },
            None => 100,
        }),
{
    match limit {
        Some(l) => if l < BLOCK_LOG_CAPACITY {
            l
        } else {
            BLOCK_LOG_CAPACITY
        },
        None => 100,
    }
}

/// The recent blocks a dashboard request for `limit` gets, newest first.
pub fn recent_blocks(log: &BlockLog, limit: Option<usize>) -> (r: Vec<BlockedEntry>)
    ensures
        r@ == newest_first(
            log.entries(),
            (match limit {
                Some(l) => if l < BLOCK_LOG_CAPACITY {
                    l
                } else {
                    BLOCK_LOG_CAPACITY
                },
                None => 100,
            }) as nat,
        ),
{
    let take = recent_blocks_take(limit);
    log.recent(take)
}

/// What a trust-history request for `host` asks the store for: the host
/// trimmed and in lower case, and how many samples; nothing for a blank
/// host.
pub fn trust_history_request(host: &str, limit: Option<usize>) -> (r: Option<(String, usize)>)
    ensures
        lower(trimmed(host@)).len() == 0 <==> r is None,
        r matches Some((h, n)) ==> h@ == lower(trimmed(host@)) && n == history_take(limit),
{
    let needle = trim_lowercase(host);
    if needle.as_str().is_empty() {
        return None;
    }
    Some((needle, trust_history_take(limit)))
}

/// Whether the page at `url` is on `needle` or one of its subdomains
/// (the host compared in lower case).
pub open spec fn on_host(url: Seq<char>, needle: Seq<char>) -> bool {
    match parsed_host(url) {
        Some(h) => lower(h) == needle || has_suffix(lower(h), seq!['.'] + needle),
        None => false,
    }
}

/// How many of `entries` are on `needle` or one of its subdomains.
pub open spec fn blocks_on(entries: Seq<BlockedEntry>, needle: Seq<char>) -> nat
    decreases entries.len(),
{
    if entries.len() == 0 {
        0
    } else {
        blocks_on(entries.drop_last(), needle) + if on_host(entries.last().url@, needle) {
            1nat
        } else {
            0nat
        }
    }
}

/// Count the entries whose URL is on `needle` or a subdomain of it.
pub fn count_blocks_on_host(entries: &Vec<BlockedEntry>, needle: &str) -> (r: usize)
    ensures
        r == blocks_on(entries@, needle@),
{
    let mut dotted = String::new();
    push_char(&mut dotted, '.');
    push_str(&mut dotted, needle);
    assert(dotted@ =~= seq!['.'] + needle@);
    let mut n: usize = 0;
    let mut i: usize = 0;
    while i < entries.len()
        invariant
            0 <= i <= entries@.len(),
            dotted@ == seq!['.'] + needle@,
            n == blocks_on(entries@.take(i as int), needle@),
            n <= i,
        decreases entries.len() - i,
    {
        assert(entries@.take(i + 1).drop_last() =~= entries@.take(i as int));
        let hit = match url_host(entries[i].url.as_str()) {
            Some(h) => {
                let l = lowercase(h.as_str());
                str_eq(l.as_str(), needle) || ends_with(&chars_of(l.as_str()), dotted.as_str())
            },
            None => false,
        };
        if hit {
            n += 1;
        }
        i += 1;
    }
    assert(entries@.take(entries@.len() as int) =~= entries@);
    n
}

/// How many blocks in the log are on `host` (trimmed, compared in lower
/// case) or one of its subdomains; 0 for a blank host.
pub fn blocks_for_host(log: &BlockLog, host: &str) -> (r: usize)
    ensures
        r == (if lower(trimmed(host@)).len() == 0 {
            0
        } else {
            blocks_on(newest_first(log.entries(), BLOCK_LOG_CAPACITY as nat), lower(trimmed(host@)))
        }),
{
    let needle = trim_lowercase(host);
    if needle.as_str().is_empty() {
        return 0;
    }
    let recent = log.recent(BLOCK_LOG_CAPACITY);
    count_blocks_on_host(&recent, needle.as_str())
}

/// The host of `url` as written, empty when it has none or does not parse.
pub open spec fn page_host(url: Seq<char>) -> Seq<char> {
    match parsed_host(url) {
        Some(h) => h,
        None => Seq::empty(),
    }
}

/// The trust verdict for the page at `url` at time `now`: with no host,
/// a verdict on no blocks, no signals and the bundled reputation list;
/// otherwise on the recent blocks on that host, the signals recorded for
/// it and the live reputation store.
pub fn trust_for_page_at(
    url: &str,
    log: &BlockLog,
    security: &SecurityStore,
    reputation: &ReputationStore,
    now: i64,
) -> (r: TrustAssessment)
    ensures
        page_host(url@).len() == 0 ==> r@ == assessment(
            scored_host(url@),
            scored_scheme(url@),
            parsed_host_is_ipv4(url@),
            0,
            crate::security::no_signals(),
            crate::reputation::bundled_hosts(),
            now as int,
        ),
        page_host(url@).len() > 0 ==> r@ == assessment(
            scored_host(url@),
            scored_scheme(url@),
            parsed_host_is_ipv4(url@),
            blocks_on(newest_first(log.entries(), BLOCK_LOG_CAPACITY as nat), lower(page_host(url@))),
            crate::security::current(security@, lower(page_host(url@))),
            reputation@,
            now as int,
        ),
{
    let host = match url_host(url) {
        Some(h) => h,
        None => String::new(),
    };
    if host.as_str().is_empty() {
        let signals = HostSignals::default();
        let bundled = ReputationStore::with_bundled();
        return evaluate_at(url, 0, &signals, &bundled, now);
    }
    let needle = lowercase(host.as_str());
    let recent = log.recent(BLOCK_LOG_CAPACITY);
    let blocks = count_blocks_on_host(&recent, needle.as_str());
    let signals = security.signals_for(needle.as_str());
    proof {
        assert(lower(needle@) =~= needle@) by {
            crate::text::lemma_lower_idempotent(host@);
        }
    }
    evaluate_at(url, blocks, &signals, reputation, now)
}

} // verus!
