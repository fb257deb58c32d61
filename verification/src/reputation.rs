//! Host-level reputation: the set of known-bad hosts the trust scorer
//! consults.
//!
//! The store starts with a tiny bundled list so a first run without
//! network still has some defense; feed refreshes union their hosts into
//! it. Hosts are kept trimmed and ASCII-lowercased, and a lookup matches a
//! listed host or any subdomain of one. Feeds are URLHaus-style text: one
//! URL per line, `#` comments; only the host of each URL is kept.

use vstd::prelude::*;
use vstd::hash_set::StringHashSet;

use crate::text::{
    chars_of, lower, lower_chars, opt_view, owned, path_join, join_path, position_of,
    split_lines, string_from, trim_chars, trimmed, views,
};
use crate::urls::{parsed_host, url_host};

verus! {

/// A reputation feed subscription.
pub struct ReputationFeed {
    pub name: String,
    pub url: String,
}

impl Clone for ReputationFeed {
    fn clone(&self) -> (r: Self)
        ensures
            r == *self,
    {
        ReputationFeed { name: self.name.clone(), url: self.url.clone() }
    }
}

/// The feeds shipped with the app: abuse.ch's URLHaus text feed.
pub fn default_feeds() -> (r: Vec<ReputationFeed>)
    ensures
        r@.len() == 1,
        r@[0].name@ == "URLHaus"@,
        r@[0].url@ == "https://urlhaus.abuse.ch/downloads/text/"@,
{
    vec![
        ReputationFeed {
            name: owned("URLHaus"),
            url: owned("https://urlhaus.abuse.ch/downloads/text/"),
        },
    ]
}

/// The bundled baseline of known-bad hosts.
pub open spec fn bundled_hosts() -> Set<Seq<char>> {
    set!["phishing.example.test"@, "malware.example.test"@]
}

/// The form a host is compared in: trimmed and ASCII-lowercased.
pub open spec fn host_key(host: Seq<char>) -> Seq<char> {
    lower(trimmed(host))
}

/// Whether the non-empty host `n` or one of its parent domains (the part
/// after any of its dots) is in `hosts`.
pub open spec fn listed(hosts: Set<Seq<char>>, n: Seq<char>) -> bool {
    n.len() > 0 && (hosts.contains(n) || exists|i: int|
        0 <= i < n.len() && n[i] == '.' && #[trigger] hosts.contains(
            n.subrange(i + 1, n.len() as int),
        ))
}

/// `set` with the key of every host of `hs` added, skipping hosts whose key
/// is empty.
pub open spec fn merged(set: Set<Seq<char>>, hs: Seq<Seq<char>>) -> Set<Seq<char>>
    decreases hs.len(),
{
    if hs.len() == 0 {
        set
    } else {
        let s = merged(set, hs.drop_last());
        let k = host_key(hs.last());
        if k.len() > 0 {
            s.insert(k)
        } else {
            s
        }
    }
}

/// Known-bad hosts.
pub struct ReputationStore {
    hosts: StringHashSet,
}

impl View for ReputationStore {
    type V = Set<Seq<char>>;

    closed spec fn view(&self) -> Set<Seq<char>> {
        self.hosts@
    }
}

impl Default for ReputationStore {
    /// An empty store.
    fn default() -> (r: Self)
        ensures
            r@ == Set::<Seq<char>>::empty(),
    {
        ReputationStore { hosts: StringHashSet::new() }
    }
}

impl ReputationStore {
    /// A store holding the bundled baseline.
    pub fn with_bundled() -> (r: Self)
        ensures
            r@ == bundled_hosts(),
    {
        let mut hosts = StringHashSet::new();
        hosts.insert(owned("phishing.example.test"));
        hosts.insert(owned("malware.example.test"));
        let r = ReputationStore { hosts };
        assert(r@ =~= bundled_hosts());
        r
    }

    /// Whether `host`, or any parent domain of it, is known bad. The host is
    /// trimmed and lowercased first; an empty host never matches.
    pub fn is_known_bad(&self, host: &str) -> (r: bool)
        ensures
            r == listed(self@, host_key(host@)),
    {
        let cs = chars_of(host);
        let t = trim_chars(&cs);
        let n = lower_chars(&t);
        if n.len() == 0 {
            return false;
        }
        let whole = string_from(&n);
        if self.hosts.contains(whole.as_str()) {
            return true;
        }
        let mut i: usize = 0;
        while i < n.len()
            invariant
                0 <= i <= n@.len(),
                n@ == host_key(host@),
                forall|j: int|
                    0 <= j < i && n@[j] == '.' ==> !self@.contains(
                        n@.subrange(j + 1, n@.len() as int),
                    ),
            decreases n.len() - i,
        {
            if n[i] == '.' {
                let rest = slice_rest(&n, i + 1);
                let r = string_from(&rest);
                if self.hosts.contains(r.as_str()) {
                    return true;
                }
            }
            i += 1;
        }
        false
    }

    /// Add every host of `hosts`, trimmed and lowercased; blank ones are
    /// skipped and ones already known stay once.
    pub fn extend(&mut self, hosts: Vec<String>)
        ensures
            final(self)@ == merged(old(self)@, views(hosts@)),
    {
        let ghost start = self@;
        let mut i: usize = 0;
        while i < hosts.len()
            invariant
                0 <= i <= hosts@.len(),
                self@ == merged(start, views(hosts@).take(i as int)),
            decreases hosts.len() - i,
        {
            let cs = chars_of(hosts[i].as_str());
            let t = trim_chars(&cs);
            let k = lower_chars(&t);
            proof {
                assert(views(hosts@).take(i + 1).drop_last() =~= views(hosts@).take(i as int));
            }
            if k.len() > 0 {
                self.hosts.insert(string_from(&k));
            }
            i += 1;
        }
        assert(views(hosts@).take(hosts@.len() as int) =~= views(hosts@));
    }

    /// How many hosts are known.
    pub fn len(&self) -> (r: usize)
        ensures
            r == self@.len(),
    {
        self.hosts.len()
    }
}

/// Merging only adds hosts: whatever was known stays known, and the key of
/// every non-blank merged host is known afterwards.
pub proof fn lemma_merged_contains(set: Set<Seq<char>>, hs: Seq<Seq<char>>)
    ensures
        forall|x: Seq<char>| set.contains(x) ==> #[trigger] merged(set, hs).contains(x),
        forall|i: int|
            0 <= i < hs.len() && host_key(hs[i]).len() > 0 ==> merged(set, hs).contains(
                #[trigger] host_key(hs[i]),
            ),
    decreases hs.len(),
{
    if hs.len() > 0 {
        lemma_merged_contains(set, hs.drop_last());
        assert forall|x: Seq<char>| set.contains(x) implies #[trigger] merged(set, hs).contains(x) by {
            assert(merged(set, hs.drop_last()).contains(x));
        }
        assert forall|i: int|
            0 <= i < hs.len() && host_key(hs[i]).len() > 0 implies merged(set, hs).contains(
            #[trigger] host_key(hs[i]),
        ) by {
            if i < hs.len() - 1 {
                assert(hs.drop_last()[i] == hs[i]);
            }
        }
    }
}

/// Once a feed refresh has added a host, that host and every subdomain of
/// it are reported as known bad.
pub proof fn lemma_extended_host_is_known_bad(
    set: Set<Seq<char>>,
    hs: Seq<Seq<char>>,
    i: int,
    sub: Seq<char>,
)
    requires
        0 <= i < hs.len(),
        host_key(hs[i]).len() > 0,
    ensures
        listed(merged(set, hs), host_key(hs[i])),
        listed(merged(set, hs), sub + seq!['.'] + host_key(hs[i])),
{
    lemma_merged_contains(set, hs);
    let k = host_key(hs[i]);
    let n = sub + seq!['.'] + k;
    let j = sub.len() as int;
    assert(n[j] == '.');
    assert(n.subrange(j + 1, n.len() as int) =~= k);
    assert(merged(set, hs).contains(n.subrange(j + 1, n.len() as int)));
}

/// `cs[from..]` as a fresh vector.
fn slice_rest(cs: &Vec<char>, from: usize) -> (r: Vec<char>)
    requires
        from <= cs@.len(),
    ensures
        r@ == cs@.subrange(from as int, cs@.len() as int),
{
    crate::text::slice_vec(cs, from, cs.len())
}

/// The host a feed line contributes: lines are trimmed, blank lines and
/// `#` comments contribute nothing, nor do lines that do not parse as a URL
/// with a host; a host is kept ASCII-lowercased.
pub open spec fn feed_line_host(line: Seq<char>) -> Option<Seq<char>> {
    let t = trimmed(line);
    if t.len() == 0 || t[0] == '#' {
        None
    } else {
        match parsed_host(t) {
            Some(h) => Some(lower(h)),
            None => None,
        }
    }
}

/// `hosts` after reading one more feed line.
pub open spec fn feed_step(hosts: Seq<Seq<char>>, line: Seq<char>) -> Seq<Seq<char>> {
    match feed_line_host(line) {
        Some(h) => if hosts.contains(h) {
            hosts
        } else {
            hosts.push(h)
        },
        None => hosts,
    }
}

/// Hosts of a feed's lines, each once, in order of first appearance.
pub open spec fn feed_hosts(lines: Seq<Seq<char>>) -> Seq<Seq<char>>
    decreases lines.len(),
{
    if lines.len() == 0 {
        Seq::empty()
    } else {
        feed_step(feed_hosts(lines.drop_last()), lines.last())
    }
}

/// Read one more feed line into `out`.
fn add_line_host(out: &mut Vec<String>, line: &[char])
    ensures
        views(final(out)@) == feed_step(views(old(out)@), line@),
{
    match line_host(line) {
        Some(hv) => {
            match position_of(out, &hv) {
                None => {
                    let ghost before = out@;
                    out.push(string_from(&hv));
                    assert(views(out@) =~= views(before).push(hv@));
                },
                Some(j) => {
                    assert(views(out@)[j as int] == hv@);
                },
            }
        },
        None => {},
    }
}

/// The host one feed line contributes, per `feed_line_host`.
fn line_host(line: &[char]) -> (r: Option<Vec<char>>)
    ensures
        match r {
            Some(h) => feed_line_host(line@) == Some(h@),
            None => feed_line_host(line@) is None,
        },
{
    let t = trim_chars(line);
    if t.len() == 0 || t[0] == '#' {
        return None;
    }
    let s = string_from(&t);
    match url_host(s.as_str()) {
        Some(h) => {
            let hc = chars_of(h.as_str());
            Some(lower_chars(&hc))
        },
        None => None,
    }
}

/// Parse a URLHaus-style feed into the set of hosts it names, each once,
/// in order of first appearance.
pub fn parse_feed(body: &str) -> (r: Vec<String>)
    ensures
        views(r@) == feed_hosts(split_lines(body@)),
{
    let cs = chars_of(body);
    let mut out: Vec<String> = Vec::new();
    let mut cur: Vec<char> = Vec::new();
    let ghost mut done: Seq<Seq<char>> = Seq::empty();
    let mut i: usize = 0;
    assert(cs@.take(0) =~= Seq::<char>::empty());
    assert(split_lines(cs@.take(0)) =~= done.push(cur@));
    assert(views(out@) =~= feed_hosts(done));
    while i < cs.len()
        invariant
            0 <= i <= cs@.len(),
            split_lines(cs@.take(i as int)) == done.push(cur@),
            views(out@) == feed_hosts(done),
        decreases cs.len() - i,
    {
        let c = cs[i];
        assert(cs@.take(i + 1).drop_last() =~= cs@.take(i as int));
        assert(cs@.take(i + 1).last() == c);
        if c == '\n' {
            add_line_host(&mut out, &cur);
            proof {
                assert(done.push(cur@).drop_last() =~= done);
                done = done.push(cur@);
            }
            cur = Vec::new();
            assert(split_lines(cs@.take(i + 1)) =~= done.push(cur@));
        } else {
            cur.push(c);
            assert(split_lines(cs@.take(i + 1)) =~= done.push(cur@));
        }
        i += 1;
    }
    add_line_host(&mut out, &cur);
    proof {
        assert(done.push(cur@).drop_last() =~= done);
        assert(cs@.take(cs@.len() as int) =~= cs@);
    }
    out
}

/// `<data_dir>/reputation-cache`.
pub open spec fn reputation_cache_dir(data_dir: Seq<char>) -> Seq<char> {
    path_join(data_dir, "reputation-cache"@)
}

/// Cache directory for reputation feeds, distinct from the filter-list
/// cache.
pub fn cache_dir(data_dir: &str) -> (r: String)
    ensures
        r@ == reputation_cache_dir(data_dir@),
{
    join_path(data_dir, "reputation-cache")
}

/// The hosts of a feed loaded from its cache file, if there is one; the
/// shell reads the file.
pub fn load_cached(cached_body: Option<&str>) -> (r: Option<Vec<String>>)
    ensures
        match cached_body {
            Some(b) => r matches Some(v) && views(v@) == feed_hosts(split_lines(b@)),
            None => r is None,
        },
{
    match cached_body {
        Some(b) => Some(parse_feed(b)),
        None => None,
    }
}

/// A feed's row in the settings page: whether a cached copy exists and
/// when it was last written.
#[derive(Debug)]
pub struct FeedStatus {
    pub name: String,
    pub url: String,
    pub cached: bool,
    pub cached_at: Option<u64>,
}

/// The status of `feed`, given what reading its cache file's metadata
/// gave: `None` when there is no readable cache file, `Some(t)` when there
/// is one, `t` its modification time in Unix seconds when that could be
/// read.
pub fn feed_status(feed: &ReputationFeed, metadata: Option<Option<u64>>) -> (r: FeedStatus)
    ensures
        r.name@ == feed.name@,
        r.url@ == feed.url@,
        r.cached == metadata is Some,
        r.cached_at == (match metadata {
            Some(t) => t,
            None => None,
        }),
{
    let (cached, cached_at) = match metadata {
        Some(t) => (true, t),
        None => (false, None),
    };
    FeedStatus {
        name: owned(feed.name.as_str()),
        url: owned(feed.url.as_str()),
        cached,
        cached_at,
    }
}

} // verus!
