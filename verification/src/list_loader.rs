//! Filter-list subscriptions: which lists are subscribed by default, where
//! each list's cached copy lives, and how the built-in patterns and the
//! lists compile into the `RegexSet`s the proxy matches against.
//!
//! The built-in patterns go into a set of their own; every list becomes
//! sets of at most `CHUNK` patterns each, so no single set outgrows the
//! regex engine's size limit. Patterns that do not compile are dropped.
//! Fetching and caching the lists is the shell's I/O.

use vstd::prelude::*;

use crate::filter_parser::{document_patterns, parse_document};
use crate::text::{chars_of, join_path, owned, path_join, push_char, push_str, split_lines, views};

verus! {

/// A filter-list subscription.
pub struct FilterList {
    pub name: String,
    pub url: String,
}

impl Clone for FilterList {
    fn clone(&self) -> (r: Self)
        ensures
            r.name@ == self.name@,
            r.url@ == self.url@,
    {
        FilterList { name: owned(self.name.as_str()), url: owned(self.url.as_str()) }
    }
}

/// The lists subscribed out of the box: EasyPrivacy and EasyList.
pub fn default_lists() -> (r: Vec<FilterList>)
    ensures
        r@.len() == 2,
        r@[0].name@ == "EasyPrivacy"@,
        r@[0].url@ == "https://easylist.to/easylist/easyprivacy.txt"@,
        r@[1].name@ == "EasyList"@,
        r@[1].url@ == "https://easylist.to/easylist/easylist.txt"@,
{
    vec![
        FilterList {
            name: owned("EasyPrivacy"),
            url: owned("https://easylist.to/easylist/easyprivacy.txt"),
        },
        FilterList { name: owned("EasyList"), url: owned("https://easylist.to/easylist/easylist.txt") },
    ]
}

/// A URL character kept in a cache file name; anything else becomes `_`.
pub open spec fn file_char(c: char) -> char {
    if ('a' <= c && c <= 'z') || ('A' <= c && c <= 'Z') || ('0' <= c && c <= '9') {
        c
    } else {
        '_'
    }
}

/// `<cache_dir>/<url with every non-alphanumeric character as _>.txt`.
pub open spec fn cache_file(cache_dir: Seq<char>, url: Seq<char>) -> Seq<char> {
    path_join(cache_dir, url.map_values(|c: char| file_char(c)) + ".txt"@)
}

/// The cache file of the list at `url`: stable for a given URL.
pub fn cache_path(cache_dir: &str, url: &str) -> (r: String)
    ensures
        r@ == cache_file(cache_dir@, url@),
{
    let cs = chars_of(url);
    let mut name = String::new();
    let mut i: usize = 0;
    while i < cs.len()
        invariant
            0 <= i <= cs@.len(),
            cs@ == url@,
            name@ == cs@.take(i as int).map_values(|c: char| file_char(c)),
        decreases cs.len() - i,
    {
        let c = cs[i];
        let d = if ('a' <= c && c <= 'z') || ('A' <= c && c <= 'Z') || ('0' <= c && c <= '9') {
            c
        } else {
            '_'
        };
        push_char(&mut name, d);
        assert(cs@.take(i + 1).map_values(|c: char| file_char(c)) =~= cs@.take(i as int).map_values(
            |c: char| file_char(c),
        ).push(file_char(c)));
        i += 1;
    }
    assert(cs@.take(cs@.len() as int) =~= cs@);
    push_str(&mut name, ".txt");
    join_path(cache_dir, name.as_str())
}

// ---------------------------------------------------------------------
// Compiling patterns
// ---------------------------------------------------------------------

/// `regex::RegexSet`, carried through opaque.
#[verifier::external_type_specification]
#[verifier::external_body]
pub struct ExRegexSet(regex::RegexSet);

/// `regex::Error`, carried through opaque.
#[verifier::external_type_specification]
#[verifier::external_body]
pub struct ExRegexError(regex::Error);

/// Whether `regex::Regex::new` accepts `pattern`.
pub uninterp spec fn pattern_compiles(pattern: Seq<char>) -> bool;

/// Whether `regex::RegexSetBuilder::new(patterns)`, with `limit` as its
/// size limit and DFA size limit and no other option set, builds.
pub uninterp spec fn set_builds(patterns: Seq<Seq<char>>, limit: nat) -> bool;

/// Whether the set `regex::RegexSetBuilder::new(patterns)` builds, with
/// `limit` as its size limit and DFA size limit and no other option set,
/// matches `text` (`RegexSet::is_match`).
pub uninterp spec fn set_matches(patterns: Seq<Seq<char>>, limit: nat, text: Seq<char>) -> bool;

/// Whether `regex::Regex::new(pattern)` succeeds.
#[verifier::external_body]
fn compiles(pattern: &str) -> (r: bool)
    ensures
        r == pattern_compiles(pattern@),
{
    regex::Regex::new(pattern).is_ok()
}

/// `RegexSetBuilder::new(patterns)` with `limit` as its size and DFA size
/// limit, built: the set, or the engine's error.
#[verifier::external_body]
fn build_set(patterns: Vec<String>, limit: usize) -> (r: Result<regex::RegexSet, regex::Error>)
    ensures
        r is Ok <==> set_builds(views(patterns@), limit as nat),
{
    regex::RegexSetBuilder::new(patterns).size_limit(limit).dfa_size_limit(limit).build()
}

/// A compiled filter set. The engine's set is private: the only way to
/// make one is `FilterSet::build`, so every set here was built from its
/// patterns with its size limit and nothing else.
pub struct FilterSet {
    set: regex::RegexSet,
    count: usize,
    patterns: Ghost<Seq<Seq<char>>>,
    limit: Ghost<nat>,
}

/// `RegexSet::is_match` on a set made by `FilterSet::build`.
#[verifier::external_body]
fn set_is_match(set: &FilterSet, text: &str) -> (r: bool)
    ensures
        r == set_matches(set.patterns(), set.size_limit(), text@),
{
    set.set.is_match(text)
}

impl FilterSet {
    /// The patterns the set was built from, in order.
    pub closed spec fn patterns(&self) -> Seq<Seq<char>> {
        self.patterns@
    }

    /// The size limit the set was built with.
    pub closed spec fn size_limit(&self) -> nat {
        self.limit@
    }

    /// Build a set of `patterns` with `limit` as its size and DFA size
    /// limit: the set, or the engine's error when it does not build.
    pub fn build(patterns: Vec<String>, limit: usize) -> (r: Result<FilterSet, regex::Error>)
        ensures
            r is Ok <==> set_builds(views(patterns@), limit as nat),
            r matches Ok(s) ==> s.patterns() == views(patterns@) && s.size_limit() == limit as nat,
    {
        let ghost pv = views(patterns@);
        let count = patterns.len();
        match build_set(patterns, limit) {
            Ok(set) => Ok(FilterSet { set, count, patterns: Ghost(pv), limit: Ghost(limit as nat) }),
            Err(e) => Err(e),
        }
    }

    /// Whether the set matches `text`.
    pub fn is_match(&self, text: &str) -> (r: bool)
        ensures
            r == set_matches(self.patterns(), self.size_limit(), text@),
    {
        set_is_match(self, text)
    }

    /// How many patterns the set holds.
    pub fn len(&self) -> (n: usize)
        ensures
            n == self.patterns().len(),
    {
        proof {
            use_type_invariant(self);
        }
        self.count
    }

    /// The pattern count is the number of patterns.
    #[verifier::type_invariant]
    closed spec fn counted(&self) -> bool {
        self.count == self.patterns@.len()
    }
}

/// The compiled-size limit of each set: 128 MiB.
pub const SIZE_LIMIT: usize = 134217728;

/// Patterns per set for a filter list.
pub const CHUNK: usize = 5000;

/// The text of each of `v`.
pub open spec fn str_views(v: Seq<&str>) -> Seq<Seq<char>> {
    v.map_values(|s: &str| s@)
}

/// The patterns of `ps` that compile, in order.
pub open spec fn valid_patterns(ps: Seq<Seq<char>>) -> Seq<Seq<char>>
    decreases ps.len(),
{
    if ps.len() == 0 {
        Seq::empty()
    } else if pattern_compiles(ps.last()) {
        valid_patterns(ps.drop_last()).push(ps.last())
    } else {
        valid_patterns(ps.drop_last())
    }
}

/// `ps` cut into consecutive pieces of `n` (the last possibly shorter).
pub open spec fn chunks(ps: Seq<Seq<char>>, n: nat) -> Seq<Seq<Seq<char>>>
    decreases ps.len(),
{
    if ps.len() == 0 || n == 0 {
        Seq::empty()
    } else if ps.len() <= n {
        seq![ps]
    } else {
        seq![ps.take(n as int)] + chunks(ps.skip(n as int), n)
    }
}

/// A list's patterns are cut into sets without loss or reordering: put
/// back together, the sets give the patterns, and each set holds at least
/// one and at most `n` of them.
pub proof fn lemma_chunks_partition(ps: Seq<Seq<char>>, n: nat)
    requires
        n > 0,
    ensures
        chunks(ps, n).flatten() == ps,
        forall|k: int| 0 <= k < chunks(ps, n).len() ==> 0 < (#[trigger] chunks(ps, n)[k]).len() <= n,
    decreases ps.len(),
{
    if ps.len() == 0 {
        assert(chunks(ps, n) =~= Seq::<Seq<Seq<char>>>::empty());
        assert(ps =~= Seq::<Seq<char>>::empty());
    } else if ps.len() <= n {
        let c = chunks(ps, n);
        assert(c == seq![ps]);
        assert(c.drop_first() =~= Seq::<Seq<Seq<char>>>::empty());
        assert(c.drop_first().flatten() =~= Seq::<Seq<char>>::empty());
        assert(c.first() == ps);
        assert(c.flatten() == ps + Seq::<Seq<char>>::empty());
        assert(ps + Seq::<Seq<char>>::empty() =~= ps);
    } else {
        let rest = chunks(ps.skip(n as int), n);
        lemma_chunks_partition(ps.skip(n as int), n);
        let c = chunks(ps, n);
        assert(c == seq![ps.take(n as int)] + rest);
        assert(c.drop_first() =~= rest);
        assert(c.first() == ps.take(n as int));
        assert(c.flatten() == ps.take(n as int) + rest.flatten());
        assert(ps.take(n as int) + ps.skip(n as int) =~= ps);
        assert forall|k: int| 0 <= k < c.len() implies 0 < (#[trigger] c[k]).len() <= n by {
            if k > 0 {
                assert(c[k] == rest[k - 1]);
            }
        }
    }
}

/// The sets every list becomes, in order.
pub open spec fn document_sets(docs: Seq<Seq<char>>) -> Seq<Seq<Seq<char>>>
    decreases docs.len(),
{
    if docs.len() == 0 {
        Seq::empty()
    } else {
        document_sets(docs.drop_last()) + chunks(
            valid_patterns(document_patterns(split_lines(docs.last()))),
            CHUNK as nat,
        )
    }
}

/// The pattern sets to build: the valid built-in patterns (if any), then
/// each list's valid patterns in chunks.
pub open spec fn planned_sets(builtin: Seq<Seq<char>>, docs: Seq<Seq<char>>) -> Seq<Seq<Seq<char>>> {
    let b = valid_patterns(builtin);
    (if b.len() > 0 {
        seq![b]
    } else {
        Seq::empty()
    }) + document_sets(docs)
}

/// The built-in patterns are a floor of protection: whatever lists are
/// loaded, their valid patterns (when there is one) make up the first set.
pub proof fn lemma_builtin_set_comes_first(builtin: Seq<Seq<char>>, docs: Seq<Seq<char>>)
    requires
        valid_patterns(builtin).len() > 0,
    ensures
        planned_sets(builtin, docs).len() > 0,
        planned_sets(builtin, docs)[0] == valid_patterns(builtin),
{
}

/// Why compiling failed.
#[derive(Debug, Clone, Copy, PartialEq, Eq, Structural)]
pub enum CompileError {
    /// The set of built-in patterns did not build.
    Builtin,
    /// A filter-list chunk did not build.
    Chunk,
}

/// The patterns of `candidates` that compile, in order, and how many were
/// dropped.
pub fn validate_each(candidates: Vec<String>) -> (r: (Vec<String>, usize))
    ensures
        views(r.0@) == valid_patterns(views(candidates@)),
        r.0@.len() + r.1 == candidates@.len(),
{
    let ghost cv = views(candidates@);
    let mut ok: Vec<String> = Vec::new();
    let mut dropped: usize = 0;
    let mut i: usize = 0;
    assert(cv.take(0) =~= Seq::<Seq<char>>::empty());
    while i < candidates.len()
        invariant
            0 <= i <= candidates@.len(),
            cv == views(candidates@),
            views(ok@) == valid_patterns(cv.take(i as int)),
            ok@.len() + dropped == i,
        decreases candidates.len() - i,
    {
        assert(cv.take(i + 1).drop_last() =~= cv.take(i as int));
        assert(cv.take(i + 1).last() == candidates@[i as int]@);
        if compiles(candidates[i].as_str()) {
            let ghost before = ok@;
            ok.push(owned(candidates[i].as_str()));
            assert(views(ok@) =~= views(before).push(candidates@[i as int]@));
        } else {
            dropped += 1;
        }
        i += 1;
    }
    assert(cv.take(cv.len() as int) =~= cv);
    (ok, dropped)
}

/// `v[from..to]` copied.
fn copy_range(v: &Vec<String>, from: usize, to: usize) -> (r: Vec<String>)
    requires
        from <= to <= v@.len(),
    ensures
        views(r@) == views(v@).subrange(from as int, to as int),
{
    let mut r: Vec<String> = Vec::new();
    let mut i = from;
    while i < to
        invariant
            from <= i <= to <= v@.len(),
            views(r@) == views(v@).subrange(from as int, i as int),
        decreases to - i,
    {
        let ghost before = r@;
        r.push(owned(v[i].as_str()));
        assert(views(r@) =~= views(before).push(v@[i as int]@));
        assert(views(v@).subrange(from as int, i + 1) =~= views(v@).subrange(from as int, i as int).push(
            v@[i as int]@,
        ));
        i += 1;
    }
    r
}

/// Build every chunk of `patterns` onto `sets`.
fn build_chunks(patterns: &Vec<String>, sets: &mut Vec<FilterSet>) -> (ok: bool)
    ensures
        ok ==> final(sets)@.len() == old(sets)@.len() + chunks(views(patterns@), CHUNK as nat).len()
            && final(sets)@.subrange(0, old(sets)@.len() as int) == old(sets)@
            && forall|k: int|
            0 <= k < chunks(views(patterns@), CHUNK as nat).len() ==> (
                #[trigger] final(sets)@[old(sets)@.len() + k]).patterns() == chunks(views(patterns@), CHUNK as nat)[k]
                && final(sets)@[old(sets)@.len() + k].size_limit() == SIZE_LIMIT as nat,
        ok <==> forall|k: int|
            0 <= k < chunks(views(patterns@), CHUNK as nat).len() ==> set_builds(
                #[trigger] chunks(views(patterns@), CHUNK as nat)[k],
                SIZE_LIMIT as nat,
            ),
{
    let ghost pv = views(patterns@);
    let ghost cs = chunks(pv, CHUNK as nat);
    let ghost base = sets@.len();
    let ghost start = sets@;
    let mut from: usize = 0;
    let mut done: usize = 0;
    assert(pv.skip(0) =~= pv);
    while from < patterns.len()
        invariant
            0 <= from <= patterns@.len(),
            pv == views(patterns@),
            cs == chunks(pv, CHUNK as nat),
            cs == cs.take(done as int) + chunks(pv.skip(from as int), CHUNK as nat),
            done <= cs.len(),
            done <= from,
            sets@.len() == base + done,
            base == start.len(),
            sets@.subrange(0, base as int) == start,
            forall|k: int| 0 <= k < done ==> (#[trigger] sets@[base + k]).patterns() == cs[k] && sets@[base + k].size_limit() == SIZE_LIMIT as nat,
            forall|k: int| 0 <= k < done ==> set_builds(#[trigger] cs[k], SIZE_LIMIT as nat),
        decreases patterns.len() - from,
    {
        let to = if patterns.len() - from > CHUNK {
            from + CHUNK
        } else {
            patterns.len()
        };
        let chunk = copy_range(patterns, from, to);
        let ghost rest = pv.skip(from as int);
        proof {
            assert(rest.len() > 0);
            if rest.len() <= CHUNK {
                assert(chunks(rest, CHUNK as nat) == seq![rest]);
                assert(views(chunk@) =~= rest);
                assert(pv.skip(to as int) =~= Seq::<Seq<char>>::empty());
                assert(chunks(pv.skip(to as int), CHUNK as nat) =~= Seq::<Seq<Seq<char>>>::empty());
            } else {
                assert(views(chunk@) =~= rest.take(CHUNK as int));
                assert(rest.skip(CHUNK as int) =~= pv.skip(to as int));
            }
            assert(cs[done as int] == views(chunk@));
            assert(cs.take(done as int + 1) =~= cs.take(done as int).push(views(chunk@)));
            assert(cs =~= cs.take(done as int + 1) + chunks(pv.skip(to as int), CHUNK as nat));
        }
        match FilterSet::build(chunk, SIZE_LIMIT) {
            Ok(s) => {
                let ghost before = sets@;
                sets.push(s);
                proof {
                    assert(sets@.subrange(0, base as int) =~= before.subrange(0, base as int));
                    assert forall|k: int| 0 <= k < done + 1 implies (#[trigger] sets@[base + k]).patterns() == cs[k] && sets@[base + k].size_limit() == SIZE_LIMIT as nat by {
                        if k < done {
                            assert(sets@[base + k] == before[base + k]);
                        }
                    }
                }
            },
            Err(_) => {
                proof {
                    assert(!set_builds(cs[done as int], SIZE_LIMIT as nat));
                }
                return false;
            },
        }
        from = to;
        done += 1;
    }
    proof {
        assert(pv.skip(from as int) =~= Seq::<Seq<char>>::empty());
        assert(chunks(pv.skip(from as int), CHUNK as nat) =~= Seq::<Seq<Seq<char>>>::empty());
        assert(cs.take(done as int) + Seq::<Seq<Seq<char>>>::empty() =~= cs.take(done as int));
        assert(cs.len() == done);
    }
    true
}

/// Compile the built-in patterns and every filter list into pattern sets:
/// one set for the built-in patterns (when any is valid), then each list's
/// valid patterns in chunks of `CHUNK`. Fails when a set does not build.
pub fn compile_patterns(builtin: &[&str], raw_documents: &[String]) -> (r: Result<Vec<FilterSet>, CompileError>)
    ensures
        r is Ok <==> forall|k: int|
            0 <= k < planned_sets(str_views(builtin@), views(raw_documents@)).len()
                ==> set_builds(
                #[trigger] planned_sets(str_views(builtin@), views(raw_documents@))[k],
                SIZE_LIMIT as nat,
            ),
        r matches Ok(sets) ==> sets@.len() == planned_sets(
            str_views(builtin@),
            views(raw_documents@),
        ).len() && forall|k: int|
            0 <= k < sets@.len() ==> (#[trigger] sets@[k]).patterns() == planned_sets(
                str_views(builtin@),
                views(raw_documents@),
            )[k] && sets@[k].size_limit() == SIZE_LIMIT as nat,
{
    let ghost bv = str_views(builtin@);
    let ghost dv = views(raw_documents@);
    let ghost plan = planned_sets(bv, dv);
    let mut names: Vec<String> = Vec::new();
    let mut i: usize = 0;
    while i < builtin.len()
        invariant
            0 <= i <= builtin@.len(),
            bv == str_views(builtin@),
            views(names@) == bv.take(i as int),
        decreases builtin.len() - i,
    {
        let ghost before = names@;
        names.push(owned(builtin[i]));
        assert(views(names@) =~= views(before).push(builtin@[i as int]@));
        assert(bv.take(i + 1) =~= bv.take(i as int).push(builtin@[i as int]@));
        i += 1;
    }
    assert(bv.take(bv.len() as int) =~= bv);
    let (builtin_patterns, _dropped) = validate_each(names);
    let mut sets: Vec<FilterSet> = Vec::new();
    let ghost head: Seq<Seq<Seq<char>>> = if valid_patterns(bv).len() > 0 {
        seq![valid_patterns(bv)]
    } else {
        Seq::empty()
    };
    if builtin_patterns.len() > 0 {
        match FilterSet::build(builtin_patterns, SIZE_LIMIT) {
            Ok(s) => {
                sets.push(s);
            },
            Err(_) => {
                proof {
                    assert(!set_builds(plan[0], SIZE_LIMIT as nat));
                }
                return Err(CompileError::Builtin);
            },
        }
    }
    assert(sets@.len() == head.len());
    let mut d: usize = 0;
    assert(dv.take(0) =~= Seq::<Seq<char>>::empty());
    assert(head + document_sets(dv.take(0)) =~= head);
    while d < raw_documents.len()
        invariant
            0 <= d <= raw_documents@.len(),
            dv == views(raw_documents@),
            bv == str_views(builtin@),
            plan == planned_sets(bv, dv),
            head == (if valid_patterns(bv).len() > 0 {
                seq![valid_patterns(bv)]
            } else {
                Seq::<Seq<Seq<char>>>::empty()
            }),
            sets@.len() == (head + document_sets(dv.take(d as int))).len(),
            forall|k: int| 0 <= k < sets@.len() ==> (#[trigger] sets@[k]).patterns() == (head + document_sets(dv.take(d as int)))[k] && sets@[k].size_limit() == SIZE_LIMIT as nat,
            forall|k: int| 0 <= k < sets@.len() ==> set_builds(#[trigger] (head + document_sets(dv.take(d as int)))[k], SIZE_LIMIT as nat),
        decreases raw_documents.len() - d,
    {
        let parsed = parse_document(raw_documents[d].as_str());
        let (valid, _dropped) = validate_each(parsed);
        let ghost before = sets@;
        let ghost upto = head + document_sets(dv.take(d as int));
        let ghost ch = chunks(views(valid@), CHUNK as nat);
        proof {
            assert(dv.take(d + 1).drop_last() =~= dv.take(d as int));
            assert(dv.take(d + 1).last() == raw_documents@[d as int]@);
            assert(head + document_sets(dv.take(d + 1)) =~= upto + ch);
        }
        if !build_chunks(&valid, &mut sets) {
            proof {
                let k = choose|k: int| 0 <= k < ch.len() && !set_builds(ch[k], SIZE_LIMIT as nat);
                let prev = document_sets(dv.take(d as int));
                let dsn = document_sets(dv.take(d + 1));
                assert(dsn == prev + ch);
                let idx = prev.len() + k;
                assert(dsn[idx] == ch[k]);
                lemma_document_sets_prefix(dv, d as int + 1);
                assert(document_sets(dv).subrange(0, dsn.len() as int)[idx] == document_sets(dv)[idx]);
                assert(document_sets(dv)[idx] == ch[k]);
                assert(plan == head + document_sets(dv));
                assert(plan[head.len() + idx] == document_sets(dv)[idx]);
                assert(!set_builds(plan[head.len() + idx], SIZE_LIMIT as nat));
            }
            return Err(CompileError::Chunk);
        }
        proof {
            assert forall|k: int| 0 <= k < sets@.len() implies (#[trigger] sets@[k]).patterns() == (upto + ch)[k] && sets@[k].size_limit() == SIZE_LIMIT as nat by {
                if k < before.len() {
                    assert(sets@.subrange(0, before.len() as int)[k] == sets@[k]);
                } else {
                    assert(sets@[before.len() + (k - before.len())] == sets@[k]);
                }
            }
            assert forall|k: int| 0 <= k < sets@.len() implies set_builds(#[trigger] (upto + ch)[k], SIZE_LIMIT as nat) by {
                if k < before.len() {
                } else {
                    assert((upto + ch)[k] == ch[k - upto.len()]);
                }
            }
        }
        d += 1;
    }
    assert(dv.take(dv.len() as int) =~= dv);
    Ok(sets)
}

/// The sets planned for a prefix of the lists come first in the plan.
proof fn lemma_document_sets_prefix(docs: Seq<Seq<char>>, n: int)
    requires
        0 <= n <= docs.len(),
    ensures
        document_sets(docs).subrange(0, document_sets(docs.take(n)).len() as int) == document_sets(
            docs.take(n),
        ),
        document_sets(docs.take(n)).len() <= document_sets(docs).len(),
    decreases docs.len() - n,
{
    if n < docs.len() {
        lemma_document_sets_prefix(docs, n + 1);
        assert(docs.take(n + 1).drop_last() =~= docs.take(n));
        let a = document_sets(docs.take(n));
        let b = document_sets(docs.take(n + 1));
        assert(b.subrange(0, a.len() as int) =~= a);
        assert(document_sets(docs).subrange(0, a.len() as int) =~= b.subrange(0, a.len() as int));
    } else {
        assert(docs.take(n) =~= docs);
        assert(document_sets(docs).subrange(0, document_sets(docs).len() as int) =~= document_sets(
            docs,
        ));
    }
}

} // verus!
