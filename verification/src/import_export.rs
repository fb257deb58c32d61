//! Backups of settings and bookmarks, and import of the Netscape-format
//! bookmark files every mainstream browser exports.
//!
//! A backup holds a version, its export time, every setting as a
//! `(key, value)` pair and every bookmark. Importing never overwrites an
//! existing bookmark (rows are keyed on the URL); settings are overwritten.
//! The shell reads and writes the JSON and the database; the library
//! checks versions and parses bookmark files.

use vstd::prelude::*;

use crate::rx::{group_pairs, matches_removed, first_group, regex_first_group, regex_group_pairs, regex_remove_all};
use crate::text::{
    chars_of, decimal, has_prefix, lower, lowercase, opt_view, owned, push_str, starts_with,
    string_from, trim_chars, trimmed, u64_to_decimal,
};

verus! {

/// The backup format this build writes and the newest it reads.
pub const BACKUP_VERSION: u32 = 1;

/// A bookmark in a backup.
#[derive(Debug)]
pub struct BookmarkExport {
    pub url: String,
    pub title: String,
    pub created_at: i64,
}

/// A whole backup.
#[derive(Debug)]
pub struct BackupFile {
    pub version: u32,
    pub exported_at: i64,
    pub settings: Vec<(String, String)>,
    pub bookmarks: Vec<BookmarkExport>,
}

/// What an import did.
#[derive(Debug, Clone, Copy, PartialEq, Eq, Structural)]
pub struct ImportResult {
    pub settings_imported: usize,
    pub bookmarks_imported: usize,
    pub bookmarks_skipped: usize,
}

impl ImportResult {
    /// Nothing imported yet; `settings_imported` settings were restored.
    pub fn start(settings_imported: usize) -> (r: Self)
        ensures
            r.settings_imported == settings_imported,
            r.bookmarks_imported == 0,
            r.bookmarks_skipped == 0,
    {
        ImportResult { settings_imported, bookmarks_imported: 0, bookmarks_skipped: 0 }
    }

    /// Whether a backed-up bookmark is offered to the store at all: only
    /// one with a URL is.
    pub fn offered(b: &BookmarkExport) -> (r: bool)
        ensures
            r == (b.url@.len() > 0),
    {
        !b.url.as_str().is_empty()
    }

    /// Count one backed-up bookmark by what happened to it: `Some(true)`
    /// when the store added it, anything else (already present, a store
    /// error, or not offered) a skip. Existing rows are never overwritten.
    pub fn count(&mut self, added: Option<bool>)
        requires
            old(self).bookmarks_imported + old(self).bookmarks_skipped < usize::MAX,
        ensures
            final(self).settings_imported == old(self).settings_imported,
            added == Some(true) ==> final(self).bookmarks_imported == old(self).bookmarks_imported + 1
                && final(self).bookmarks_skipped == old(self).bookmarks_skipped,
            added != Some(true) ==> final(self).bookmarks_skipped == old(self).bookmarks_skipped + 1
                && final(self).bookmarks_imported == old(self).bookmarks_imported,
    {
        match added {
            Some(true) => self.bookmarks_imported = self.bookmarks_imported + 1,
            _ => self.bookmarks_skipped = self.bookmarks_skipped + 1,
        }
    }
}

/// The refusal of a backup from a newer build.
pub open spec fn newer_version_message(version: u32) -> Seq<char> {
    "backup is from a newer version ("@ + decimal(version as nat) + ") than this build supports ("@
        + decimal(BACKUP_VERSION as nat) + ")."@
}

/// Refuse a backup written by a newer build than this one.
pub fn check_backup_version(version: u32) -> (r: Result<(), String>)
    ensures
        version <= BACKUP_VERSION <==> r is Ok,
        r matches Err(m) ==> m@ == newer_version_message(version),
{
    if version > BACKUP_VERSION {
        let mut m = owned("backup is from a newer version (");
        let v = u64_to_decimal(version as u64);
        push_str(&mut m, v.as_str());
        push_str(&mut m, ") than this build supports (");
        let b = u64_to_decimal(BACKUP_VERSION as u64);
        push_str(&mut m, b.as_str());
        push_str(&mut m, ").");
        return Err(m);
    }
    Ok(())
}

// ---------------------------------------------------------------------
// Plain-text replacement and integer parsing
// ---------------------------------------------------------------------

/// `s` with every non-overlapping occurrence of `from`, scanning left to
/// right, replaced by `to` (`str::replace`); an empty `from` occurs before
/// every character and at the end.
pub open spec fn replaced(s: Seq<char>, from: Seq<char>, to: Seq<char>) -> Seq<char>
    decreases s.len(),
{
    if from.len() == 0 {
        if s.len() == 0 {
            to
        } else {
            to + seq![s[0]] + replaced(s.drop_first(), from, to)
        }
    } else if s.len() == 0 {
        s
    } else if has_prefix(s, from) {
        to + replaced(s.skip(from.len() as int), from, to)
    } else {
        seq![s[0]] + replaced(s.drop_first(), from, to)
    }
}

/// `s` with every non-overlapping `from` replaced by `to`.
pub fn replace_all(s: &str, from: &str, to: &str) -> (r: String)
    ensures
        r@ == replaced(s@, from@, to@),
{
    let cs = chars_of(s);
    let fc = chars_of(from);
    let mut out = String::new();
    let mut i: usize = 0;
    assert(cs@.skip(0) =~= cs@);
    if fc.len() == 0 {
        while i < cs.len()
            invariant
                0 <= i <= cs@.len(),
                cs@ == s@,
                from@.len() == 0,
                out@ + replaced(cs@.skip(i as int), from@, to@) == replaced(s@, from@, to@),
            decreases cs.len() - i,
        {
            let ghost rest = cs@.skip(i as int);
            let ghost before = out@;
            assert(rest.drop_first() =~= cs@.skip(i + 1));
            assert(rest[0] == cs@[i as int]);
            push_str(&mut out, to);
            crate::text::push_char(&mut out, cs[i]);
            assert(out@ + replaced(cs@.skip(i + 1), from@, to@) =~= before + replaced(rest, from@, to@));
            i += 1;
        }
        assert(cs@.skip(i as int) =~= Seq::<char>::empty());
        push_str(&mut out, to);
        return out;
    }
    while i < cs.len()
        invariant
            0 <= i <= cs@.len(),
            cs@ == s@,
            fc@ == from@,
            fc@.len() > 0,
            out@ + replaced(cs@.skip(i as int), from@, to@) == replaced(s@, from@, to@),
        decreases cs.len() - i,
    {
        let ghost rest = cs@.skip(i as int);
        if crate::text::matches_at(&cs, i, &fc) {
            proof {
                assert(rest.take(fc@.len() as int) =~= cs@.subrange(i as int, i + fc@.len()));
                assert(rest.skip(fc@.len() as int) =~= cs@.skip(i + fc@.len()));
            }
            push_str(&mut out, to);
            i += fc.len();
        } else {
            proof {
                if has_prefix(rest, from@) {
                    assert(rest.take(fc@.len() as int) =~= cs@.subrange(i as int, i + fc@.len()));
                }
                assert(rest.drop_first() =~= cs@.skip(i + 1));
            }
            let c = cs[i];
            crate::text::push_char(&mut out, c);
            i += 1;
        }
    }
    assert(cs@.skip(i as int) =~= Seq::<char>::empty());
    out
}

/// Whether every character of `s` is an ASCII digit.
pub open spec fn all_digits(s: Seq<char>) -> bool {
    forall|i: int| 0 <= i < s.len() ==> '0' <= #[trigger] s[i] && s[i] <= '9'
}

/// The value of a string of ASCII digits.
pub open spec fn digits_value(s: Seq<char>) -> int
    decreases s.len(),
{
    if s.len() == 0 {
        0
    } else {
        digits_value(s.drop_last()) * 10 + (s.last() as int - '0' as int)
    }
}

/// `i64::from_str`: an optional sign, then one or more ASCII digits, with
/// a value in range.
pub open spec fn parsed_i64(s: Seq<char>) -> Option<i64> {
    let neg = s.len() > 0 && s[0] == '-';
    let d = if s.len() > 0 && (s[0] == '-' || s[0] == '+') {
        s.drop_first()
    } else {
        s
    };
    if d.len() == 0 || !all_digits(d) {
        None
    } else {
        let v = if neg {
            -digits_value(d)
        } else {
            digits_value(d)
        };
        if i64::MIN <= v <= i64::MAX {
            Some(v as i64)
        } else {
            None
        }
    }
}

/// A longer digit string is worth at least as much as its prefix.
proof fn lemma_digits_grow(s: Seq<char>, k: int)
    requires
        0 <= k <= s.len(),
        all_digits(s),
    ensures
        digits_value(s) >= digits_value(s.take(k)),
        digits_value(s.take(k)) >= 0,
    decreases s.len() - k,
{
    if k < s.len() {
        lemma_digits_grow(s, k + 1);
        assert(s.take(k + 1).drop_last() =~= s.take(k));
        assert(s.take(k + 1).last() == s[k]);
    } else {
        assert(s.take(k) =~= s);
    }
    lemma_digits_nonneg(s.take(k));
}

proof fn lemma_digits_nonneg(s: Seq<char>)
    requires
        all_digits(s),
    ensures
        digits_value(s) >= 0,
    decreases s.len(),
{
    if s.len() > 0 {
        assert(all_digits(s.drop_last())) by {
            assert forall|i: int| 0 <= i < s.drop_last().len() implies '0' <= #[trigger] s.drop_last()[i]
                && s.drop_last()[i] <= '9' by {
                assert(s.drop_last()[i] == s[i]);
            }
        }
        lemma_digits_nonneg(s.drop_last());
        assert('0' <= s.last());
    }
}

/// Parse a decimal `i64` as `str::parse::<i64>` does.
pub fn parse_i64(s: &str) -> (r: Option<i64>)
    ensures
        r == parsed_i64(s@),
{
    let cs = chars_of(s);
    let neg = cs.len() > 0 && cs[0] == '-';
    let start: usize = if cs.len() > 0 && (cs[0] == '-' || cs[0] == '+') {
        1
    } else {
        0
    };
    let ghost d = if cs@.len() > 0 && (cs@[0] == '-' || cs@[0] == '+') {
        cs@.drop_first()
    } else {
        cs@
    };
    assert(d =~= cs@.skip(start as int));
    if cs.len() == start {
        return None;
    }
    let mut acc: u64 = 0;
    let mut i = start;
    while i < cs.len()
        invariant
            start <= i <= cs@.len(),
            cs@ == s@,
            start < cs@.len(),
            d == cs@.skip(start as int),
            d == (if cs@.len() > 0 && (cs@[0] == '-' || cs@[0] == '+') {
                cs@.drop_first()
            } else {
                cs@
            }),
            neg == (cs@.len() > 0 && cs@[0] == '-'),
            all_digits(cs@.subrange(start as int, i as int)),
            acc as int == digits_value(cs@.subrange(start as int, i as int)),
        decreases cs.len() - i,
    {
        let c = cs[i];
        let ghost pre = cs@.subrange(start as int, i as int);
        assert(cs@.subrange(start as int, i + 1).drop_last() =~= pre);
        if c < '0' || c > '9' {
            proof {
                assert(d[i - start] == c);
            }
            return None;
        }
        let dv = (c as u32 - '0' as u32) as u64;
        if acc > (u64::MAX - dv) / 10 {
            proof {
                assert(all_digits(cs@.subrange(start as int, i + 1))) by {
                    assert forall|j: int| 0 <= j < (i + 1 - start) implies '0' <= #[trigger] cs@.subrange(start as int, i + 1)[j]
                        && cs@.subrange(start as int, i + 1)[j] <= '9' by {
                        if j < i - start {
                            assert(cs@.subrange(start as int, i + 1)[j] == pre[j]);
                        }
                    }
                }
                assert(digits_value(cs@.subrange(start as int, i + 1)) > u64::MAX);
                if all_digits(d) {
                    assert(cs@.subrange(start as int, i + 1) =~= d.take(i + 1 - start));
                    lemma_digits_grow(d, i + 1 - start);
                }
            }
            return None;
        }
        acc = acc * 10 + dv;
        proof {
            assert(all_digits(cs@.subrange(start as int, i + 1))) by {
                assert forall|j: int| 0 <= j < (i + 1 - start) implies '0' <= #[trigger] cs@.subrange(start as int, i + 1)[j]
                    && cs@.subrange(start as int, i + 1)[j] <= '9' by {
                    if j < i - start {
                        assert(cs@.subrange(start as int, i + 1)[j] == pre[j]);
                    }
                }
            }
        }
        i += 1;
    }
    assert(cs@.subrange(start as int, cs@.len() as int) =~= d);
    if neg {
        if acc <= 9223372036854775808 {
            if acc == 9223372036854775808 {
                Some(i64::MIN)
            } else {
                Some(-(acc as i64))
            }
        } else {
            None
        }
    } else {
        if acc <= 9223372036854775807 {
            Some(acc as i64)
        } else {
            None
        }
    }
}

// ---------------------------------------------------------------------
// Netscape bookmark files
// ---------------------------------------------------------------------

/// An `<a ...>...</a>` element: its attributes and its inner HTML.
pub open spec fn anchor_pattern() -> Seq<char> {
    r#"(?is)<a\s+([^>]*?)>(.*?)</a>"#@
}

/// The `href` attribute's value.
pub open spec fn href_pattern() -> Seq<char> {
    r#"(?i)href\s*=\s*"([^"]*)""#@
}

/// The `add_date` attribute's digits.
pub open spec fn date_pattern() -> Seq<char> {
    r#"(?i)add_date\s*=\s*"(\d+)""#@
}

/// Any tag.
pub open spec fn tag_pattern() -> Seq<char> {
    "<[^>]*>"@
}

/// A bookmark title: nested tags dropped, then the entities browsers emit
/// decoded (`&amp;` first).
pub open spec fn title_text(inner: Seq<char>) -> Seq<char> {
    replaced(
        replaced(
            replaced(
                replaced(replaced(matches_removed(tag_pattern(), inner), "&amp;"@, "&"@), "&lt;"@, "<"@),
                "&gt;"@,
                ">"@,
            ),
            "&quot;"@,
            r#"""#@,
        ),
        "&#39;"@,
        "'"@,
    )
}

/// Drop nested tags from a bookmark title and decode common entities.
pub fn strip_tags(s: &str) -> (r: String)
    ensures
        r@ == title_text(s@),
{
    proof {
        reveal_strlit("&amp;");
        reveal_strlit("&lt;");
        reveal_strlit("&gt;");
        reveal_strlit("&quot;");
        reveal_strlit("&#39;");
    }
    let without = regex_remove_all("<[^>]*>", s);
    let a = replace_all(without.as_str(), "&amp;", "&");
    let b = replace_all(a.as_str(), "&lt;", "<");
    let c = replace_all(b.as_str(), "&gt;", ">");
    let d = replace_all(c.as_str(), "&quot;", r#"""#);
    replace_all(d.as_str(), "&#39;", "'")
}

/// Whether a bookmark URL has a scheme worth importing (not Firefox's
/// `place:` folders or feeds).
pub open spec fn importable(lowered: Seq<char>) -> bool {
    has_prefix(lowered, "http://"@) || has_prefix(lowered, "https://"@) || has_prefix(
        lowered,
        "ftp://"@,
    ) || has_prefix(lowered, "file://"@)
}

/// The bookmark an anchor with attributes `attrs` and inner HTML `inner`
/// yields: `(url, title, add_date)`, with 0 for a missing or unreadable
/// date.
pub open spec fn anchor_bookmark(attrs: Seq<char>, inner: Seq<char>) -> Option<(Seq<char>, Seq<char>, i64)> {
    match first_group(href_pattern(), attrs) {
        Some(Some(h)) => {
            let url = trimmed(h);
            if url.len() == 0 || !importable(lower(url)) {
                None
            } else {
                let date = match first_group(date_pattern(), attrs) {
                    Some(Some(g)) => match parsed_i64(g) {
                        Some(v) => v,
                        None => 0,
                    },
                    _ => 0,
                };
                Some((url, trimmed(title_text(inner)), date))
            }
        },
        _ => None,
    }
}

/// The bookmarks of every anchor, in order; both groups take part in every
/// match of the anchor pattern.
pub open spec fn bookmarks_in(anchors: Seq<(Option<Seq<char>>, Option<Seq<char>>)>) -> Seq<(Seq<char>, Seq<char>, i64)>
    decreases anchors.len(),
{
    if anchors.len() == 0 {
        Seq::empty()
    } else {
        let before = bookmarks_in(anchors.drop_last());
        match anchors.last() {
            (Some(attrs), Some(inner)) => match anchor_bookmark(attrs, inner) {
                Some(b) => before.push(b),
                None => before,
            },
            _ => before,
        }
    }
}

/// An anchor whose `href`, trimmed and lowercased, starts with `http://`,
/// `https://`, `ftp://` or `file://` is imported with that trimmed URL; one
/// with any other scheme (Firefox's `place:` folders, feeds) is not.
pub proof fn law_web_anchor_imported(attrs: Seq<char>, inner: Seq<char>, href: Seq<char>)
    requires
        first_group(r#"(?i)href\s*=\s*"([^"]*)""#@, attrs) == Some(Some(href)),
    ensures
        has_prefix(lower(trimmed(href)), "http://"@) || has_prefix(lower(trimmed(href)), "https://"@)
            || has_prefix(lower(trimmed(href)), "ftp://"@) || has_prefix(lower(trimmed(href)), "file://"@)
            ==> anchor_bookmark(attrs, inner) is Some && anchor_bookmark(attrs, inner).unwrap().0
            == trimmed(href),
        !(has_prefix(lower(trimmed(href)), "http://"@) || has_prefix(lower(trimmed(href)), "https://"@)
            || has_prefix(lower(trimmed(href)), "ftp://"@) || has_prefix(lower(trimmed(href)), "file://"@))
            ==> anchor_bookmark(attrs, inner) is None,
{
    reveal_strlit("http://");
    reveal_strlit("https://");
    reveal_strlit("ftp://");
    reveal_strlit("file://");
    assert(lower(trimmed(href)).len() == trimmed(href).len());
}

/// Anchors whose hrefs all start with `http://` (in any case, once trimmed)
/// are all imported, in document order, each with its trimmed URL.
pub proof fn law_web_bookmarks_in_order(
    anchors: Seq<(Option<Seq<char>>, Option<Seq<char>>)>,
    hrefs: Seq<Seq<char>>,
)
    requires
        anchors.len() == hrefs.len(),
        forall|i: int|
            0 <= i < anchors.len() ==> (#[trigger] anchors[i]).0 is Some && anchors[i].1 is Some
                && first_group(r#"(?i)href\s*=\s*"([^"]*)""#@, anchors[i].0.unwrap()) == Some(
                Some(hrefs[i]),
            ) && has_prefix(lower(trimmed(hrefs[i])), "http://"@),
    ensures
        bookmarks_in(anchors).len() == anchors.len(),
        forall|i: int| 0 <= i < anchors.len() ==> #[trigger] bookmarks_in(anchors)[i].0 == trimmed(hrefs[i]),
    decreases anchors.len(),
{
    if anchors.len() > 0 {
        let n = anchors.len() - 1;
        law_web_bookmarks_in_order(anchors.drop_last(), hrefs.drop_last());
        assert(anchors[n] == anchors.last());
        law_web_anchor_imported(anchors[n].0.unwrap(), anchors[n].1.unwrap(), hrefs[n]);
        let before = bookmarks_in(anchors.drop_last());
        assert forall|i: int| 0 <= i < anchors.len() implies #[trigger] bookmarks_in(anchors)[i].0 == trimmed(hrefs[i]) by {
            if i < n {
                assert(anchors.drop_last()[i] == anchors[i]);
                assert(before[i].0 == trimmed(hrefs.drop_last()[i]));
            }
        }
    }
}

/// Trimmed copy of `s`.
fn trim_copy(s: &str) -> (r: String)
    ensures
        r@ == trimmed(s@),
{
    let cs = chars_of(s);
    let t = trim_chars(&cs);
    string_from(&t)
}

/// The bookmark one anchor yields.
fn bookmark_of_anchor(attrs: &str, inner: &str) -> (r: Option<(String, String, i64)>)
    ensures
        match r {
            Some((u, t, d)) => anchor_bookmark(attrs@, inner@) == Some((u@, t@, d)),
            None => anchor_bookmark(attrs@, inner@) is None,
        },
{
    let href = match regex_first_group(r#"(?i)href\s*=\s*"([^"]*)""#, attrs) {
        Some(Some(h)) => h,
        _ => return None,
    };
    let url = trim_copy(href.as_str());
    let lowered = lowercase(url.as_str());
    let lc = chars_of(lowered.as_str());
    if url.as_str().is_empty() {
        return None;
    }
    if !(starts_with(&lc, "http://") || starts_with(&lc, "https://") || starts_with(&lc, "ftp://")
        || starts_with(&lc, "file://")) {
        return None;
    }
    let date: i64 = match regex_first_group(r#"(?i)add_date\s*=\s*"(\d+)""#, attrs) {
        Some(Some(g)) => match parse_i64(g.as_str()) {
            Some(v) => v,
            None => 0,
        },
        _ => 0,
    };
    let title = strip_tags(inner);
    let t = trim_copy(title.as_str());
    Some((url, t, date))
}

/// `(url, title, add_date)` of every importable bookmark in a
/// Netscape-format export, in order; `add_date` is 0 when missing.
pub fn parse_netscape_bookmarks(html: &str) -> (r: Vec<(String, String, i64)>)
    ensures
        r@.map_values(|b: (String, String, i64)| (b.0@, b.1@, b.2)) == bookmarks_in(
            group_pairs(anchor_pattern(), html@),
        ),
{
    let anchors = regex_group_pairs(r#"(?is)<a\s+([^>]*?)>(.*?)</a>"#, html);
    let ghost av = anchors@.map_values(|p: (Option<String>, Option<String>)| (opt_view(p.0), opt_view(p.1)));
    let mut out: Vec<(String, String, i64)> = Vec::new();
    let mut i: usize = 0;
    assert(av.take(0) =~= Seq::<(Option<Seq<char>>, Option<Seq<char>>)>::empty());
    while i < anchors.len()
        invariant
            0 <= i <= anchors@.len(),
            av == anchors@.map_values(|p: (Option<String>, Option<String>)| (opt_view(p.0), opt_view(p.1))),
            out@.map_values(|b: (String, String, i64)| (b.0@, b.1@, b.2)) == bookmarks_in(av.take(i as int)),
        decreases anchors.len() - i,
    {
        assert(av.take(i + 1).drop_last() =~= av.take(i as int));
        assert(av.take(i + 1).last() == av[i as int]);
        match (&anchors[i].0, &anchors[i].1) {
            (Some(attrs), Some(inner)) => {
                match bookmark_of_anchor(attrs.as_str(), inner.as_str()) {
                    Some(b) => {
                        let ghost before = out@;
                        let ghost bv = (b.0@, b.1@, b.2);
                        out.push(b);
                        assert(out@.map_values(|b: (String, String, i64)| (b.0@, b.1@, b.2)) =~= before.map_values(
                            |b: (String, String, i64)| (b.0@, b.1@, b.2),
                        ).push(bv));
                    },
                    None => {},
                }
            },
            _ => {},
        }
        i += 1;
    }
    assert(av.take(av.len() as int) =~= av);
    out
}

} // verus!
