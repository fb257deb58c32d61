//! The personal index: history, bookmarks and trust samples.
//!
//! The rows live in SQLite, which the shell queries; the library holds the
//! row types and the decisions around the queries: what a `LIKE` pattern
//! looks like, which visits are recorded, and how bookmark and history
//! hits merge into URL-bar suggestions.

use vstd::prelude::*;

use crate::text::{
    chars_of, concat_map, has_prefix, lemma_concat_map_step, owned, position_of, push_char,
    push_str, starts_with, views,
};

verus! {

/// One recorded visit.
#[derive(Debug)]
pub struct Visit {
    pub id: i64,
    pub url: String,
    pub title: String,
    pub visited_at: i64,
    pub visit_count: i64,
}

/// One bookmark.
#[derive(Debug)]
pub struct Bookmark {
    pub url: String,
    pub title: String,
    pub created_at: i64,
}

/// A host's trust score at a point in time.
#[derive(Debug, Clone, Copy, PartialEq, Eq, Structural)]
pub struct TrustSample {
    pub score: u8,
    pub recorded_at: i64,
}

/// Where a suggestion comes from.
#[derive(Debug, Clone, Copy, PartialEq, Eq, Structural)]
pub enum SuggestionSource {
    Bookmark,
    History,
}

/// One URL-bar suggestion.
#[derive(Debug)]
pub struct Suggestion {
    pub url: String,
    pub title: String,
    pub source: SuggestionSource,
    pub visit_count: i64,
}

/// A suggestion as plain values.
pub ghost struct SuggestionView {
    pub url: Seq<char>,
    pub title: Seq<char>,
    pub source: SuggestionSource,
    pub visit_count: i64,
}

impl View for Suggestion {
    type V = SuggestionView;

    open spec fn view(&self) -> SuggestionView {
        SuggestionView {
            url: self.url@,
            title: self.title@,
            source: self.source,
            visit_count: self.visit_count,
        }
    }
}

/// A visit as plain values: its URL, title and visit count.
pub open spec fn visit_view(v: Visit) -> (Seq<char>, Seq<char>, i64) {
    (v.url@, v.title@, v.visit_count)
}

// ---------------------------------------------------------------------
// LIKE patterns
// ---------------------------------------------------------------------

/// One character of a `LIKE` payload: `%`, `_` and `\` are escaped.
pub open spec fn like_char(c: char) -> Seq<char> {
    if c == '%' || c == '_' || c == '\\' {
        seq!['\\', c]
    } else {
        seq![c]
    }
}

/// `s` as a literal `LIKE` payload (used with `ESCAPE '\'`).
pub open spec fn like_escaped(s: Seq<char>) -> Seq<char> {
    concat_map(s, |c: char| like_char(c))
}

/// Escape `%`, `_` and `\` so user input matches literally in a `LIKE`.
pub fn escape_like(input: &str) -> (r: String)
    ensures
        r@ == like_escaped(input@),
{
    let cs = chars_of(input);
    let ghost f = |c: char| like_char(c);
    let mut out = String::new();
    let mut i: usize = 0;
    assert(cs@.take(0) =~= Seq::<char>::empty());
    while i < cs.len()
        invariant
            0 <= i <= cs@.len(),
            cs@ == input@,
            f == (|c: char| like_char(c)),
            out@ == concat_map(cs@.take(i as int), f),
        decreases cs.len() - i,
    {
        let c = cs[i];
        proof {
            lemma_concat_map_step(cs@, i as int, f);
        }
        if c == '%' || c == '_' || c == '\\' {
            push_char(&mut out, '\\');
        }
        push_char(&mut out, c);
        assert(out@ =~= concat_map(cs@.take(i + 1), f));
        i += 1;
    }
    assert(cs@.take(cs@.len() as int) =~= cs@);
    out
}

/// The `LIKE` pattern matching any text containing `query` literally.
pub fn contains_pattern(query: &str) -> (r: String)
    ensures
        r@ == "%"@ + like_escaped(query@) + "%"@,
{
    let mut out = owned("%");
    let e = escape_like(query);
    push_str(&mut out, e.as_str());
    push_str(&mut out, "%");
    out
}

/// Visits to empty, `data:` and `about:` URLs are not recorded.
pub open spec fn recorded_url(url: Seq<char>) -> bool {
    url.len() > 0 && !has_prefix(url, "data:"@) && !has_prefix(url, "about:"@)
}

/// Whether a visit to `url` goes into the history.
pub fn should_record_visit(url: &str) -> (r: bool)
    ensures
        r == recorded_url(url@),
{
    let cs = chars_of(url);
    cs.len() > 0 && !starts_with(&cs, "data:") && !starts_with(&cs, "about:")
}

// ---------------------------------------------------------------------
// Suggestions
// ---------------------------------------------------------------------

/// The URLs of a list of suggestions.
pub open spec fn urls(s: Seq<SuggestionView>) -> Seq<Seq<char>> {
    s.map_values(|x: SuggestionView| x.url)
}

/// A bookmark hit as a suggestion.
pub open spec fn bookmark_suggestion(b: (Seq<char>, Seq<char>)) -> SuggestionView {
    SuggestionView { url: b.0, title: b.1, source: SuggestionSource::Bookmark, visit_count: 0 }
}

/// A history hit as a suggestion.
pub open spec fn history_suggestion(v: (Seq<char>, Seq<char>, i64)) -> SuggestionView {
    SuggestionView { url: v.0, title: v.1, source: SuggestionSource::History, visit_count: v.2 }
}

/// Bookmark hits taken in order, each URL once; stops once `limit` are
/// collected (checked after each hit). Also tells whether it stopped.
pub open spec fn from_bookmarks(bs: Seq<(Seq<char>, Seq<char>)>, limit: nat) -> (Seq<SuggestionView>, bool)
    decreases bs.len(),
{
    if bs.len() == 0 {
        (Seq::empty(), false)
    } else {
        let (o, stop) = from_bookmarks(bs.drop_last(), limit);
        if stop {
            (o, true)
        } else {
            let o2 = if urls(o).contains(bs.last().0) {
                o
            } else {
                o.push(bookmark_suggestion(bs.last()))
            };
            (o2, o2.len() >= limit)
        }
    }
}

/// History hits appended to `o` in order, each URL once, while fewer than
/// `limit` are collected.
pub open spec fn then_history(o: Seq<SuggestionView>, hs: Seq<(Seq<char>, Seq<char>, i64)>, limit: nat) -> Seq<SuggestionView>
    decreases hs.len(),
{
    if hs.len() == 0 {
        o
    } else {
        let before = then_history(o, hs.drop_last(), limit);
        if before.len() >= limit || urls(before).contains(hs.last().0) {
            before
        } else {
            before.push(history_suggestion(hs.last()))
        }
    }
}

/// Suggestions from bookmark hits, then history hits.
pub open spec fn merged_suggestions(
    bs: Seq<(Seq<char>, Seq<char>)>,
    hs: Seq<(Seq<char>, Seq<char>, i64)>,
    limit: nat,
) -> Seq<SuggestionView> {
    let (o, stop) = from_bookmarks(bs, limit);
    if stop {
        o
    } else {
        then_history(o, hs, limit)
    }
}

/// The views of suggestions.
pub open spec fn suggestion_views(s: Seq<Suggestion>) -> Seq<SuggestionView> {
    s.map_values(|x: Suggestion| x@)
}

/// Whether a suggestion for `url` is already in `out`.
fn has_url(out: &Vec<Suggestion>, url: &str) -> (r: bool)
    ensures
        r == urls(suggestion_views(out@)).contains(url@),
{
    let uc = chars_of(url);
    let mut i: usize = 0;
    while i < out.len()
        invariant
            0 <= i <= out@.len(),
            uc@ == url@,
            forall|j: int| 0 <= j < i ==> out@[j].url@ != url@,
        decreases out.len() - i,
    {
        let c = chars_of(out[i].url.as_str());
        if crate::text::chars_eq(&c, &uc) {
            assert(urls(suggestion_views(out@))[i as int] == url@);
            return true;
        }
        i += 1;
    }
    proof {
        if urls(suggestion_views(out@)).contains(url@) {
            let j = choose|j: int|
                0 <= j < urls(suggestion_views(out@)).len() && urls(suggestion_views(out@))[j]
                    == url@;
            assert(out@[j].url@ == url@);
        }
    }
    false
}

/// Append a suggestion.
fn push_suggestion(out: &mut Vec<Suggestion>, s: Suggestion)
    ensures
        suggestion_views(final(out)@) == suggestion_views(old(out)@).push(s@),
{
    let ghost before = out@;
    let ghost sv = s@;
    out.push(s);
    assert(suggestion_views(out@) =~= suggestion_views(before).push(sv));
}

/// Merge bookmark hits (url, title) and history hits into at most about
/// `limit` URL-bar suggestions: bookmarks first, each URL once.
pub fn merge_suggestions(bookmarks: &Vec<(String, String)>, hits: &Vec<Visit>, limit: usize) -> (r: Vec<Suggestion>)
    ensures
        suggestion_views(r@) == merged_suggestions(
            bookmarks@.map_values(|b: (String, String)| (b.0@, b.1@)),
            hits@.map_values(|v: Visit| visit_view(v)),
            limit as nat,
        ),
{
    let ghost bs = bookmarks@.map_values(|b: (String, String)| (b.0@, b.1@));
    let ghost hs = hits@.map_values(|v: Visit| visit_view(v));
    let mut out: Vec<Suggestion> = Vec::new();
    let mut i: usize = 0;
    assert(bs.take(0) =~= Seq::<(Seq<char>, Seq<char>)>::empty());
    while i < bookmarks.len()
        invariant
            0 <= i <= bookmarks@.len(),
            bs == bookmarks@.map_values(|b: (String, String)| (b.0@, b.1@)),
            from_bookmarks(bs.take(i as int), limit as nat) == (suggestion_views(out@), false),
        decreases bookmarks.len() - i,
    {
        assert(bs.take(i + 1).drop_last() =~= bs.take(i as int));
        assert(bs.take(i + 1).last() == bs[i as int]);
        let (url, title) = &bookmarks[i];
        if !has_url(&out, url.as_str()) {
            push_suggestion(
                &mut out,
                Suggestion {
                    url: owned(url.as_str()),
                    title: owned(title.as_str()),
                    source: SuggestionSource::Bookmark,
                    visit_count: 0,
                },
            );
        }
        if out.len() >= limit {
            proof {
                lemma_bookmarks_stop(bs, i as int + 1, limit as nat);
            }
            return out;
        }
        i += 1;
    }
    assert(bs.take(bs.len() as int) =~= bs);
    let ghost o0 = suggestion_views(out@);
    let mut k: usize = 0;
    assert(hs.take(0) =~= Seq::<(Seq<char>, Seq<char>, i64)>::empty());
    while k < hits.len()
        invariant
            0 <= k <= hits@.len(),
            hs == hits@.map_values(|v: Visit| visit_view(v)),
            suggestion_views(out@) == then_history(o0, hs.take(k as int), limit as nat),
        decreases hits.len() - k,
    {
        assert(hs.take(k + 1).drop_last() =~= hs.take(k as int));
        assert(hs.take(k + 1).last() == hs[k as int]);
        if out.len() < limit && !has_url(&out, hits[k].url.as_str()) {
            push_suggestion(
                &mut out,
                Suggestion {
                    url: owned(hits[k].url.as_str()),
                    title: owned(hits[k].title.as_str()),
                    source: SuggestionSource::History,
                    visit_count: hits[k].visit_count,
                },
            );
        }
        k += 1;
    }
    assert(hs.take(hs.len() as int) =~= hs);
    out
}

/// Once the bookmarks reached the limit, later bookmarks change nothing.
proof fn lemma_bookmarks_stop(bs: Seq<(Seq<char>, Seq<char>)>, i: int, limit: nat)
    requires
        0 <= i <= bs.len(),
        from_bookmarks(bs.take(i), limit).1,
    ensures
        from_bookmarks(bs, limit) == from_bookmarks(bs.take(i), limit),
    decreases bs.len() - i,
{
    if i < bs.len() {
        assert(bs.take(i + 1).drop_last() =~= bs.take(i));
        lemma_bookmarks_stop(bs, i + 1, limit);
    } else {
        assert(bs.take(i) =~= bs);
    }
}

/// No URL is suggested twice.
pub proof fn lemma_suggestions_distinct(
    bs: Seq<(Seq<char>, Seq<char>)>,
    hs: Seq<(Seq<char>, Seq<char>, i64)>,
    limit: nat,
)
    ensures
        urls(merged_suggestions(bs, hs, limit)).no_duplicates(),
{
    lemma_bookmarks_distinct(bs, limit);
    let (o, stop) = from_bookmarks(bs, limit);
    if !stop {
        lemma_history_distinct(o, hs, limit);
    }
}

/// Appending a URL not yet present keeps the URLs distinct.
proof fn lemma_push_distinct(o: Seq<SuggestionView>, s: SuggestionView)
    requires
        urls(o).no_duplicates(),
        !urls(o).contains(s.url),
    ensures
        urls(o.push(s)).no_duplicates(),
{
    let u = urls(o.push(s));
    assert(u =~= urls(o).push(s.url));
    assert forall|i: int, j: int| 0 <= i < u.len() && 0 <= j < u.len() && i != j implies u[i]
        != u[j] by {
        if i == u.len() - 1 {
            assert(urls(o)[j] == u[j]);
        } else if j == u.len() - 1 {
            assert(urls(o)[i] == u[i]);
        } else {
            assert(urls(o)[i] == u[i] && urls(o)[j] == u[j]);
        }
    }
}

proof fn lemma_bookmarks_distinct(bs: Seq<(Seq<char>, Seq<char>)>, limit: nat)
    ensures
        urls(from_bookmarks(bs, limit).0).no_duplicates(),
    decreases bs.len(),
{
    if bs.len() == 0 {
        assert(urls(Seq::<SuggestionView>::empty()) =~= Seq::<Seq<char>>::empty());
    } else {
        lemma_bookmarks_distinct(bs.drop_last(), limit);
        let (o, stop) = from_bookmarks(bs.drop_last(), limit);
        if !stop && !urls(o).contains(bs.last().0) {
            lemma_push_distinct(o, bookmark_suggestion(bs.last()));
        }
    }
}

proof fn lemma_history_distinct(o: Seq<SuggestionView>, hs: Seq<(Seq<char>, Seq<char>, i64)>, limit: nat)
    requires
        urls(o).no_duplicates(),
    ensures
        urls(then_history(o, hs, limit)).no_duplicates(),
    decreases hs.len(),
{
    if hs.len() > 0 {
        lemma_history_distinct(o, hs.drop_last(), limit);
        let before = then_history(o, hs.drop_last(), limit);
        if !(before.len() >= limit || urls(before).contains(hs.last().0)) {
            lemma_push_distinct(before, history_suggestion(hs.last()));
        }
    }
}

} // verus!
