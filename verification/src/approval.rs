//! Per-origin approval gate.
//!
//! The first tool call that touches a given origin (scheme + host + port)
//! waits until it is allowed or denied in an in-app dialog. The decision is
//! remembered for the rest of the session (and persisted across restarts by
//! the shell), so the same site is never asked about twice. Nothing is
//! pre-approved.

use vstd::prelude::*;

use crate::text::{decimal, join_path, owned, path_join, push_str, u64_to_decimal};
use crate::urls::{parsed_host, parsed_port, parsed_scheme, url_host, url_port, url_scheme};

verus! {

/// The user's answer for an origin.
#[derive(Debug, Clone, Copy, PartialEq, Eq, Structural)]
pub enum Decision {
    Allow,
    Deny,
}

/// The decision recorded for `origin` in `s` (the latest one wins).
pub open spec fn decision_in(s: Seq<(String, Decision)>, origin: Seq<char>) -> Option<Decision>
    decreases s.len(),
{
    if s.len() == 0 {
        None
    } else if s.last().0@ == origin {
        Some(s.last().1)
    } else {
        decision_in(s.drop_last(), origin)
    }
}

/// `<app_data>/control/approvals.json`.
pub open spec fn approvals_file(app_data: Seq<char>) -> Seq<char> {
    path_join(path_join(app_data, "control"@), "approvals.json"@)
}

/// Remembered decisions, by origin.
pub struct ApprovalGate {
    path: Option<String>,
    state: Vec<(String, Decision)>,
}

impl View for ApprovalGate {
    type V = Map<Seq<char>, Decision>;

    closed spec fn view(&self) -> Map<Seq<char>, Decision> {
        Map::new(
            |o: Seq<char>| decision_in(self.state@, o).is_some(),
            |o: Seq<char>| decision_in(self.state@, o).unwrap(),
        )
    }
}

impl ApprovalGate {
    /// Where decisions are persisted, if anywhere.
    pub closed spec fn file(&self) -> Option<Seq<char>> {
        match self.path {
            Some(p) => Some(p@),
            None => None,
        }
    }

    /// An empty gate persisted under `<app_data>/control/approvals.json`;
    /// the shell replays the saved decisions into it with `remember`.
    pub fn open(app_data: &str) -> (g: Self)
        ensures
            g@ == Map::<Seq<char>, Decision>::empty(),
            g.file() == Some(approvals_file(app_data@)),
    {
        let dir = join_path(app_data, "control");
        let path = join_path(dir.as_str(), "approvals.json");
        let g = ApprovalGate { path: Some(path), state: Vec::new() };
        assert(g@ =~= Map::<Seq<char>, Decision>::empty());
        g
    }

    /// An in-memory-only gate, never persisted.
    pub fn in_memory() -> (g: Self)
        ensures
            g@ == Map::<Seq<char>, Decision>::empty(),
            g.file() == None::<Seq<char>>,
    {
        let g = ApprovalGate { path: None, state: Vec::new() };
        assert(g@ =~= Map::<Seq<char>, Decision>::empty());
        g
    }

    /// Path of the persisted copy, if any.
    pub fn file_path(&self) -> (r: Option<String>)
        ensures
            match r {
                Some(p) => self.file() == Some(p@),
                None => self.file() == None::<Seq<char>>,
            },
    {
        match &self.path {
            Some(p) => Some(p.clone()),
            None => None,
        }
    }

    /// Position of the entry holding `origin`'s current decision.
    fn position(&self, origin: &str) -> (r: Option<usize>)
        ensures
            match r {
                Some(k) => k < self.state@.len() && self.state@[k as int].0@ == origin@
                    && decision_in(self.state@, origin@) == Some(self.state@[k as int].1)
                    && forall|j: int| k < j < self.state@.len() ==> self.state@[j].0@ != origin@,
                None => decision_in(self.state@, origin@).is_none(),
            },
    {
        let mut i = self.state.len();
        assert(self.state@.take(i as int) =~= self.state@);
        while i > 0
            invariant
                i <= self.state@.len(),
                forall|j: int| i <= j < self.state@.len() ==> self.state@[j].0@ != origin@,
                decision_in(self.state@, origin@) == decision_in(self.state@.take(i as int), origin@),
            decreases i,
        {
            assert(self.state@.take(i as int).drop_last() =~= self.state@.take(i - 1));
            if crate::text::str_eq(self.state[i - 1].0.as_str(), origin) {
                return Some(i - 1);
            }
            i -= 1;
        }
        None
    }

    /// The remembered decision for `origin`, if the user answered before.
    pub fn decision(&self, origin: &str) -> (r: Option<Decision>)
        ensures
            r == if self@.contains_key(origin@) {
                Some(self@[origin@])
            } else {
                None::<Decision>
            },
    {
        match self.position(origin) {
            Some(k) => Some(self.state[k].1),
            None => None,
        }
    }

    /// Record the user's answer for `origin`; other origins keep theirs.
    pub fn remember(&mut self, origin: &str, decision: Decision)
        ensures
            final(self)@ == old(self)@.insert(origin@, decision),
            final(self).file() == old(self).file(),
    {
        match self.position(origin) {
            Some(k) => {
                let ghost before = self.state@;
                let key = self.state[k].0.clone();
                self.state.set(k, (key, decision));
                proof {
                    lemma_decision_set(before, k as int, origin@, decision);
                }
            },
            None => {
                let ghost before = self.state@;
                self.state.push((owned(origin), decision));
                proof {
                    assert(self.state@.drop_last() =~= before);
                }
            },
        }
        assert(self@ =~= old(self)@.insert(origin@, decision));
    }

    /// Every remembered `(origin, decision)`, for persisting.
    pub fn snapshot(&self) -> (r: Vec<(String, Decision)>)
        ensures
            forall|o: Seq<char>| #[trigger] decision_in(r@, o) == if self@.contains_key(o) {
                Some(self@[o])
            } else {
                None::<Decision>
            },
    {
        let mut out: Vec<(String, Decision)> = Vec::new();
        let mut i: usize = 0;
        while i < self.state.len()
            invariant
                0 <= i <= self.state@.len(),
                out@.len() == i,
                forall|j: int| 0 <= j < i ==> (#[trigger] out@[j]).0@ == self.state@[j].0@ && out@[j].1
                    == self.state@[j].1,
            decreases self.state.len() - i,
        {
            out.push((self.state[i].0.clone(), self.state[i].1));
            i += 1;
        }
        proof {
            assert forall|o: Seq<char>| decision_in(out@, o) == decision_in(self.state@, o) by {
                lemma_decision_same_keys(out@, self.state@, o);
            }
        }
        out
    }
}

proof fn lemma_decision_same_keys(a: Seq<(String, Decision)>, b: Seq<(String, Decision)>, o: Seq<char>)
    requires
        a.len() == b.len(),
        forall|j: int| 0 <= j < a.len() ==> (#[trigger] a[j]).0@ == b[j].0@ && a[j].1 == b[j].1,
    ensures
        decision_in(a, o) == decision_in(b, o),
    decreases a.len(),
{
    if a.len() > 0 {
        lemma_decision_same_keys(a.drop_last(), b.drop_last(), o);
        assert(a.last() == a[a.len() - 1]);
    }
}

proof fn lemma_decision_set(s: Seq<(String, Decision)>, k: int, origin: Seq<char>, d: Decision)
    requires
        0 <= k < s.len(),
        s[k].0@ == origin,
        forall|j: int| k < j < s.len() ==> s[j].0@ != origin,
    ensures
        forall|o: Seq<char>| #[trigger] decision_in(s.update(k, (s[k].0, d)), o) == if o == origin {
            Some(d)
        } else {
            decision_in(s, o)
        },
{
    assert forall|o: Seq<char>| #[trigger] decision_in(s.update(k, (s[k].0, d)), o) == if o == origin {
        Some(d)
    } else {
        decision_in(s, o)
    } by {
        lemma_decision_set_one(s, k, origin, d, o);
    }
}

proof fn lemma_decision_set_one(s: Seq<(String, Decision)>, k: int, origin: Seq<char>, d: Decision, o: Seq<char>)
    requires
        0 <= k < s.len(),
        s[k].0@ == origin,
        forall|j: int| k < j < s.len() ==> s[j].0@ != origin,
    ensures
        decision_in(s.update(k, (s[k].0, d)), o) == if o == origin {
            Some(d)
        } else {
            decision_in(s, o)
        },
    decreases s.len(),
{
    let t = s.update(k, (s[k].0, d));
    if k == s.len() - 1 {
        assert(t.drop_last() =~= s.drop_last());
    } else {
        assert(t.drop_last() =~= s.drop_last().update(k, (s[k].0, d)));
        lemma_decision_set_one(s.drop_last(), k, origin, d, o);
        assert(t.last() == s.last());
    }
}

/// A site's remembered decision is what is given back for it, and remembering
/// it changes no other site's decision.
pub proof fn lemma_remember_then_decision(
    before: Map<Seq<char>, Decision>,
    origin: Seq<char>,
    d: Decision,
    other: Seq<char>,
)
    requires
        other != origin,
    ensures
        before.insert(origin, d).contains_key(origin) && before.insert(origin, d)[origin] == d,
        before.insert(origin, d).contains_key(other) == before.contains_key(other),
        before.contains_key(other) ==> before.insert(origin, d)[other] == before[other],
{
}

/// The decisions a fresh gate holds after `remember` is called with each of
/// `saved`, in order.
pub open spec fn replayed(saved: Seq<(String, Decision)>) -> Map<Seq<char>, Decision>
    decreases saved.len(),
{
    if saved.len() == 0 {
        Map::empty()
    } else {
        replayed(saved.drop_last()).insert(saved.last().0@, saved.last().1)
    }
}

/// Decisions survive a restart: remembering, in a freshly opened gate,
/// every decision a gate's snapshot lists gives back that gate's decisions.
pub proof fn law_replay_restores(gate: ApprovalGate, saved: Seq<(String, Decision)>)
    requires
        forall|o: Seq<char>| #[trigger] decision_in(saved, o) == if gate@.contains_key(o) {
            Some(gate@[o])
        } else {
            None::<Decision>
        },
    ensures
        replayed(saved) == gate@,
{
    lemma_replayed_is_latest(saved);
    assert forall|o: Seq<char>| #[trigger] replayed(saved).contains_key(o) == gate@.contains_key(o) by {
        assert(decision_in(saved, o) == if gate@.contains_key(o) {
            Some(gate@[o])
        } else {
            None::<Decision>
        });
    }
    assert forall|o: Seq<char>| #[trigger] replayed(saved).contains_key(o) implies replayed(saved)[o] == gate@[o] by {
        assert(decision_in(saved, o) == if gate@.contains_key(o) {
            Some(gate@[o])
        } else {
            None::<Decision>
        });
    }
    assert(replayed(saved) =~= gate@);
}

/// Replaying gives each origin its latest decision.
proof fn lemma_replayed_is_latest(saved: Seq<(String, Decision)>)
    ensures
        forall|o: Seq<char>| #[trigger] replayed(saved).contains_key(o) == decision_in(saved, o).is_some(),
        forall|o: Seq<char>| #[trigger] replayed(saved).contains_key(o) ==> replayed(saved)[o] == decision_in(saved, o).unwrap(),
    decreases saved.len(),
{
    if saved.len() > 0 {
        let p = saved.drop_last();
        lemma_replayed_is_latest(p);
        assert forall|o: Seq<char>| #[trigger] replayed(saved).contains_key(o) == decision_in(saved, o).is_some() by {
            if o != saved.last().0@ {
                assert(replayed(p).contains_key(o) == decision_in(p, o).is_some());
            }
        }
        assert forall|o: Seq<char>| #[trigger] replayed(saved).contains_key(o) implies replayed(saved)[o] == decision_in(saved, o).unwrap() by {
            if o != saved.last().0@ {
                assert(replayed(p).contains_key(o) == decision_in(p, o).is_some());
                assert(replayed(p).contains_key(o) ==> replayed(p)[o] == decision_in(p, o).unwrap());
            }
        }
    }
}

/// `scheme://host[:port]` from the parts of a parsed URL; a URL that did
/// not parse (no scheme) is its own origin.
pub open spec fn origin_from_parts(
    url: Seq<char>,
    scheme: Option<Seq<char>>,
    host: Option<Seq<char>>,
    port: Option<u16>,
) -> Seq<char> {
    match scheme {
        None => url,
        Some(s) => s + "://"@ + (match host {
            Some(h) => h,
            None => Seq::empty(),
        }) + (match port {
            Some(p) => ":"@ + decimal(p as nat),
            None => Seq::empty(),
        }),
    }
}

/// The approval key of `url`: `scheme://host[:port]` as the `url` crate
/// parses it, or `url` itself when it does not parse, so that it still
/// gates.
pub open spec fn origin(url: Seq<char>) -> Seq<char> {
    origin_from_parts(url, parsed_scheme(url), parsed_host(url), parsed_port(url))
}

/// `scheme://host[:port]` from a parsed URL's scheme, host and port.
pub fn origin_from(url: &str, scheme: Option<&str>, host: Option<&str>, port: Option<u16>) -> (r: String)
    ensures
        r@ == origin_from_parts(
            url@,
            match scheme {
                Some(s) => Some(s@),
                None => None,
            },
            match host {
                Some(h) => Some(h@),
                None => None,
            },
            port,
        ),
{
    match scheme {
        None => owned(url),
        Some(s) => {
            let mut out = owned(s);
            push_str(&mut out, "://");
            match host {
                Some(h) => push_str(&mut out, h),
                None => {},
            }
            match port {
                Some(p) => {
                    push_str(&mut out, ":");
                    let d = u64_to_decimal(p as u64);
                    push_str(&mut out, d.as_str());
                },
                None => {},
            }
            proof {
                reveal_strlit("");
            }
            assert(out@ =~= origin_from_parts(
                url@,
                Some(s@),
                match host {
                    Some(h) => Some(h@),
                    None => None,
                },
                port,
            ));
            out
        },
    }
}

/// The approval key of `url`.
pub fn origin_of(url: &str) -> (r: String)
    ensures
        r@ == origin(url@),
{
    let scheme = url_scheme(url);
    let host = url_host(url);
    let port = url_port(url);
    let s = match &scheme {
        Some(x) => Some(x.as_str()),
        None => None,
    };
    let h = match &host {
        Some(x) => Some(x.as_str()),
        None => None,
    };
    origin_from(url, s, h, port)
}

} // verus!
