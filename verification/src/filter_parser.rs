//! Parse a subset of the easylist/ublock filter format into regex patterns.
//!
//! Supported syntax:
//! - `||domain.tld^` -> block any request to that domain (and subdomains)
//! - `||domain.tld/path` -> block requests to that URL prefix
//! - `/path/` -> block requests containing that path
//! - `domain.tld^` -> block a bare domain
//! - Lines beginning with `!`, `[`, or blank are comments/metadata (skipped)
//! - Element-hiding rules (`##`, `#@#`, `#?#`) are skipped (we operate on
//!   the network, not the DOM)
//! - Exception rules (`@@`) are skipped in this first cut
//! - Rules carrying `$options` are skipped: their context (third-party,
//!   domain, resource type) is not tracked at the proxy, and applying them
//!   unconditionally would overblock.

use vstd::prelude::*;

use crate::text::{
    chars_of, concat_map, contains_str, find_char, first_index, has_prefix, has_sub,
    lemma_concat_map_step, opt_view, owned, push_char, push_str, split_lines, starts_with, trim_chars,
    trimmed, views,
};

verus! {

/// Regex prefix for a `||host` anchor: any scheme, any subdomain.
pub open spec fn host_anchor() -> Seq<char> {
    "^https?://([^/]+\\.)?"@
}

/// Regex suffix for a bare `||host` rule: separator or end of URL.
pub open spec fn bare_host_end() -> Seq<char> {
    "(?:[/:?&#]|$)"@
}

/// Regex class standing for the easylist separator `^`.
pub open spec fn separator_class() -> Seq<char> {
    "[/:?&#]"@
}

/// Characters a rule body must escape: regex metacharacters other than the
/// easylist wildcards `*` and `^`.
pub open spec fn is_tail_meta(c: char) -> bool {
    c == '.' || c == '+' || c == '?' || c == '(' || c == ')' || c == '[' || c == ']' || c == '{'
        || c == '}' || c == '\\' || c == '|' || c == '$'
}

/// Characters escaped in a literal host: every regex metacharacter.
pub open spec fn is_literal_meta(c: char) -> bool {
    is_tail_meta(c) || c == '*' || c == '^'
}

/// Regex fragment for one character of a rule body.
pub open spec fn tail_piece(c: char) -> Seq<char> {
    if c == '*' {
        seq!['.', '*']
    } else if c == '^' {
        separator_class()
    } else if is_tail_meta(c) {
        seq!['\\', c]
    } else {
        seq![c]
    }
}

/// Regex fragment for one character of a literal host.
pub open spec fn literal_piece(c: char) -> Seq<char> {
    if is_literal_meta(c) {
        seq!['\\', c]
    } else {
        seq![c]
    }
}

/// A rule body as a regex fragment: `*` matches anything, `^` a
/// separator, every other metacharacter literally.
pub open spec fn tail_regex(s: Seq<char>) -> Seq<char> {
    concat_map(s, |c: char| tail_piece(c))
}

/// A host matched literally.
pub open spec fn literal_regex(s: Seq<char>) -> Seq<char> {
    concat_map(s, |c: char| literal_piece(c))
}

/// Length of the host part of `s`: up to the first `/` or `^`, or all of it.
pub open spec fn host_len(s: Seq<char>) -> nat
    decreases s.len(),
{
    if s.len() == 0 || s[0] == '/' || s[0] == '^' {
        0
    } else {
        1 + host_len(s.drop_first())
    }
}

/// The regex a (non-comment, non-contextual) rule body translates to.
pub open spec fn translation(body: Seq<char>) -> Option<Seq<char>> {
    let b = trimmed(body);
    if b.len() == 0 {
        None
    } else if has_prefix(b, seq!['|', '|']) {
        let rest = b.skip(2);
        let host = rest.take(host_len(rest) as int);
        let tail = rest.skip(host_len(rest) as int);
        Some(
            host_anchor() + literal_regex(host) + if tail.len() == 0 {
                bare_host_end()
            } else {
                tail_regex(tail)
            },
        )
    } else if b[0] == '|' {
        Some(seq!['^'] + tail_regex(b.skip(1)))
    } else if b.last() == '|' {
        Some(tail_regex(b.drop_last()) + seq!['$'])
    } else {
        Some(tail_regex(b))
    }
}

/// Whether the first `$` of `t` carries `$options` (is not escaped by a
/// preceding backslash).
pub open spec fn has_options(t: Seq<char>) -> bool {
    match first_index(t, '$') {
        Some(i) => !(i > 0 && t[i - 1] == '\\'),
        None => false,
    }
}

/// Whether a trimmed line is a comment, metadata, cosmetic, exception or
/// contextual rule, none of which produce a network pattern.
pub open spec fn skipped(t: Seq<char>) -> bool {
    ||| t.len() == 0
    ||| t[0] == '!'
    ||| t[0] == '['
    ||| has_sub(t, seq!['#', '#'])
    ||| has_sub(t, seq!['#', '@', '#'])
    ||| has_sub(t, seq!['#', '?', '#'])
    ||| has_prefix(t, seq!['@', '@'])
    ||| has_options(t)
}

/// The pattern one easylist line yields, if any.
pub open spec fn line_pattern(line: Seq<char>) -> Option<Seq<char>> {
    let t = trimmed(line);
    if skipped(t) {
        None
    } else {
        translation(t)
    }
}

/// Patterns of every line that yields one, in document order.
pub open spec fn document_patterns(lines: Seq<Seq<char>>) -> Seq<Seq<char>>
    decreases lines.len(),
{
    if lines.len() == 0 {
        Seq::empty()
    } else {
        let before = document_patterns(lines.drop_last());
        match line_pattern(lines.last()) {
            Some(p) => before.push(p),
            None => before,
        }
    }
}

proof fn lemma_split_lines_nonempty(s: Seq<char>)
    ensures
        split_lines(s).len() >= 1,
    decreases s.len(),
{
    if s.len() > 0 {
        lemma_split_lines_nonempty(s.drop_last());
    }
}

/// Convert one easylist line to a regex pattern, or `None` if the line is a
/// comment, unsupported, or explicitly skipped.
pub fn line_to_pattern(line: &str) -> (r: Option<String>)
    ensures
        opt_view(r) == line_pattern(line@),
{
    let cs = chars_of(line);
    pattern_of_chars(&cs)
}

/// `line_to_pattern` on a line given as characters.
fn pattern_of_chars(line: &[char]) -> (r: Option<String>)
    ensures
        opt_view(r) == line_pattern(line@),
{
    let t = trim_chars(line);
    if t.len() == 0 {
        return None;
    }
    if t[0] == '!' || t[0] == '[' {
        return None;
    }
    let h1 = contains_str(&t, "##");
    let h2 = contains_str(&t, "#@#");
    let h3 = contains_str(&t, "#?#");
    let ex = starts_with(&t, "@@");
    proof {
        reveal_strlit("##");
        reveal_strlit("#@#");
        reveal_strlit("#?#");
        reveal_strlit("@@");
        assert("##"@ =~= seq!['#', '#']);
        assert("#@#"@ =~= seq!['#', '@', '#']);
        assert("#?#"@ =~= seq!['#', '?', '#']);
        assert("@@"@ =~= seq!['@', '@']);
    }
    if h1 || h2 || h3 {
        return None;
    }
    if ex {
        return None;
    }
    if let Some(i) = find_char(&t, '$') {
        if !preceding_escape(&t, i) {
            return None;
        }
    }
    translate(&t)
}

/// Whether the character before position `i` is a backslash.
fn preceding_escape(s: &[char], i: usize) -> (b: bool)
    requires
        i <= s@.len(),
    ensures
        b == (i > 0 && s@[i - 1] == '\\'),
{
    i > 0 && s[i - 1] == '\\'
}

/// Translate a rule body (already free of comments and options) to a regex.
fn translate(body: &[char]) -> (r: Option<String>)
    ensures
        opt_view(r) == translation(body@),
{
    let b = trim_chars(body);
    if b.len() == 0 {
        return None;
    }
    let bar2 = starts_with(&b, "||");
    proof {
        reveal_strlit("||");
        assert("||"@ =~= seq!['|', '|']);
    }
    if bar2 {
        let n = b.len();
        let mut he: usize = 2;
        while he < n && b[he] != '/' && b[he] != '^'
            invariant
                2 <= he <= n == b@.len(),
                host_len(b@.skip(2)) == (he - 2) + host_len(b@.skip(he as int)),
            decreases n - he,
        {
            assert(b@.skip(he as int).drop_first() =~= b@.skip(he + 1));
            he += 1;
        }
        let ghost rest = b@.skip(2);
        assert(host_len(b@.skip(he as int)) == 0);
        assert(rest.take(he - 2) =~= b@.subrange(2, he as int));
        assert(rest.skip(he - 2) =~= b@.subrange(he as int, n as int));
        let mut pattern = owned("^https?://([^/]+\\.)?");
        escape_literal_into(&mut pattern, &b, 2, he);
        if he == n {
            push_str(&mut pattern, "(?:[/:?&#]|$)");
        } else {
            translate_tail_into(&mut pattern, &b, he, n);
        }
        return Some(pattern);
    }
    if b[0] == '|' {
        let mut out = String::new();
        push_char(&mut out, '^');
        translate_tail_into(&mut out, &b, 1, b.len());
        assert(b@.subrange(1, b@.len() as int) =~= b@.skip(1));
        assert(out@ =~= seq!['^'] + tail_regex(b@.skip(1)));
        return Some(out);
    }
    if b[b.len() - 1] == '|' {
        let mut out = String::new();
        translate_tail_into(&mut out, &b, 0, b.len() - 1);
        push_char(&mut out, '$');
        assert(b@.subrange(0, b@.len() - 1) =~= b@.drop_last());
        assert(out@ =~= tail_regex(b@.drop_last()) + seq!['$']);
        return Some(out);
    }
    let mut out = String::new();
    translate_tail_into(&mut out, &b, 0, b.len());
    assert(b@.subrange(0, b@.len() as int) =~= b@);
    assert(out@ =~= tail_regex(b@));
    Some(out)
}

/// Append the regex fragment for one rule-body character.
fn push_tail_piece(out: &mut String, c: char)
    ensures
        final(out)@ == old(out)@ + tail_piece(c),
{
    if c == '*' {
        push_char(out, '.');
        push_char(out, '*');
        assert(final(out)@ =~= old(out)@ + seq!['.', '*']);
    } else if c == '^' {
        push_str(out, "[/:?&#]");
    } else if c == '.' || c == '+' || c == '?' || c == '(' || c == ')' || c == '[' || c == ']'
        || c == '{' || c == '}' || c == '\\' || c == '|' || c == '$' {
        push_char(out, '\\');
        push_char(out, c);
        assert(final(out)@ =~= old(out)@ + seq!['\\', c]);
    } else {
        push_char(out, c);
        assert(final(out)@ =~= old(out)@ + seq![c]);
    }
}

/// Append the regex fragment for one literal-host character.
fn push_literal_piece(out: &mut String, c: char)
    ensures
        final(out)@ == old(out)@ + literal_piece(c),
{
    if c == '.' || c == '+' || c == '?' || c == '(' || c == ')' || c == '[' || c == ']' || c
        == '{' || c == '}' || c == '\\' || c == '|' || c == '$' || c == '*' || c == '^' {
        push_char(out, '\\');
        push_char(out, c);
        assert(final(out)@ =~= old(out)@ + seq!['\\', c]);
    } else {
        push_char(out, c);
        assert(final(out)@ =~= old(out)@ + seq![c]);
    }
}

/// Append the regex for the rule body `s[from..to]`.
fn translate_tail_into(out: &mut String, s: &[char], from: usize, to: usize)
    requires
        from <= to <= s@.len(),
    ensures
        final(out)@ == old(out)@ + tail_regex(s@.subrange(from as int, to as int)),
{
    let ghost sub = s@.subrange(from as int, to as int);
    let ghost start = out@;
    let mut i = from;
    assert(sub.take(0) =~= Seq::<char>::empty());
    assert(start + tail_regex(sub.take(0)) =~= start);
    while i < to
        invariant
            from <= i <= to <= s@.len(),
            sub == s@.subrange(from as int, to as int),
            out@ == start + tail_regex(sub.take(i - from)),
        decreases to - i,
    {
        proof {
            lemma_concat_map_step(sub, i - from, |c: char| tail_piece(c));
        }
        push_tail_piece(out, s[i]);
        assert(sub[i - from] == s@[i as int]);
        assert(out@ =~= start + tail_regex(sub.take(i + 1 - from)));
        i += 1;
    }
    assert(sub.take(to - from) =~= sub);
}

/// Append the literal-host regex for `s[from..to]`.
fn escape_literal_into(out: &mut String, s: &[char], from: usize, to: usize)
    requires
        from <= to <= s@.len(),
    ensures
        final(out)@ == old(out)@ + literal_regex(s@.subrange(from as int, to as int)),
{
    let ghost sub = s@.subrange(from as int, to as int);
    let ghost start = out@;
    let mut i = from;
    assert(sub.take(0) =~= Seq::<char>::empty());
    assert(start + literal_regex(sub.take(0)) =~= start);
    while i < to
        invariant
            from <= i <= to <= s@.len(),
            sub == s@.subrange(from as int, to as int),
            out@ == start + literal_regex(sub.take(i - from)),
        decreases to - i,
    {
        proof {
            lemma_concat_map_step(sub, i - from, |c: char| literal_piece(c));
        }
        push_literal_piece(out, s[i]);
        assert(sub[i - from] == s@[i as int]);
        assert(out@ =~= start + literal_regex(sub.take(i + 1 - from)));
        i += 1;
    }
    assert(sub.take(to - from) =~= sub);
}

/// Parse a whole easylist-formatted document into a list of regex patterns.
/// Invalid and unsupported lines are silently dropped.
pub fn parse_document(body: &str) -> (r: Vec<String>)
    ensures
        views(r@) == document_patterns(split_lines(body@)),
{
    let cs = chars_of(body);
    let mut out: Vec<String> = Vec::new();
    let mut cur: Vec<char> = Vec::new();
    let ghost mut done: Seq<Seq<char>> = Seq::empty();
    let mut i: usize = 0;
    assert(cs@.take(0) =~= Seq::<char>::empty());
    assert(split_lines(cs@.take(0)) =~= done.push(cur@));
    while i < cs.len()
        invariant
            0 <= i <= cs@.len(),
            split_lines(cs@.take(i as int)) == done.push(cur@),
            views(out@) == document_patterns(done),
        decreases cs.len() - i,
    {
        let c = cs[i];
        assert(cs@.take(i + 1).drop_last() =~= cs@.take(i as int));
        assert(cs@.take(i + 1).last() == c);
        if c == '\n' {
            let p = pattern_of_chars(&cur);
            proof {
                assert(done.push(cur@).drop_last() =~= done);
            }
            match p {
                Some(s) => {
                    out.push(s);
                },
                None => {},
            }
            proof {
                assert(done.push(cur@).last() == cur@);
                assert(views(out@) =~= document_patterns(done.push(cur@)));
                done = done.push(cur@);
            }
            cur = Vec::new();
            assert(split_lines(cs@.take(i + 1)) =~= done.push(cur@));
        } else {
            let ghost old_cur = cur@;
            cur.push(c);
            assert(split_lines(cs@.take(i + 1)) =~= done.push(cur@));
        }
        i += 1;
    }
    let p = pattern_of_chars(&cur);
    proof {
        assert(done.push(cur@).drop_last() =~= done);
    }
    match p {
        Some(s) => {
            out.push(s);
        },
        None => {},
    }
    assert(cs@.take(cs@.len() as int) =~= cs@);
    assert(views(out@) =~= document_patterns(done.push(cur@)));
    out
}

/// A character the regex syntax gives a meaning outside a character class,
/// so that it stands for itself only behind a backslash.
pub open spec fn regex_special(c: char) -> bool {
    c == '\\' || c == '.' || c == '+' || c == '*' || c == '?' || c == '(' || c == ')' || c == '|'
        || c == '[' || c == ']' || c == '{' || c == '}' || c == '^' || c == '$'
}

/// `p` is a regex for exactly the text `text`: every character of `text`
/// in order, a special one behind a backslash, any other as itself.
pub open spec fn spells(p: Seq<char>, text: Seq<char>) -> bool
    decreases text.len(),
{
    if text.len() == 0 {
        p.len() == 0
    } else if regex_special(text.last()) {
        p.len() >= 2 && p.last() == text.last() && p[p.len() - 2] == '\\' && spells(
            p.subrange(0, p.len() - 2),
            text.drop_last(),
        )
    } else {
        p.len() >= 1 && p.last() == text.last() && spells(p.drop_last(), text.drop_last())
    }
}

/// A rule body without wildcards or separators translates to a regex for
/// exactly that text.
proof fn lemma_tail_regex_spells(b: Seq<char>)
    requires
        forall|i: int| 0 <= i < b.len() ==> b[i] != '*' && b[i] != '^',
    ensures
        spells(tail_regex(b), b),
    decreases b.len(),
{
    if b.len() > 0 {
        let q = tail_regex(b.drop_last());
        lemma_tail_regex_spells(b.drop_last());
        let c = b.last();
        let p = tail_regex(b);
        assert(p == q + tail_piece(c));
        if regex_special(c) {
            assert(tail_piece(c) == seq!['\\', c]);
            assert(p.subrange(0, p.len() - 2) =~= q);
        } else {
            assert(tail_piece(c) == seq![c]);
            assert(p.drop_last() =~= q);
        }
    }
}

/// A rule with no wildcard `*`, separator `^` or anchor `|` blocks exactly
/// the URLs that contain its text: its pattern spells the trimmed rule,
/// every regex metacharacter (`?` and `.` among them) behind a backslash.
pub proof fn law_plain_rule_is_literal(line: Seq<char>)
    requires
        !skipped(trimmed(line)),
        forall|i: int|
            0 <= i < trimmed(line).len() ==> trimmed(line)[i] != '*' && trimmed(line)[i] != '^'
                && trimmed(line)[i] != '|',
    ensures
        line_pattern(line) is Some,
        spells(line_pattern(line).unwrap(), trimmed(line)),
{
    let t = trimmed(line);
    crate::browser::lemma_trimmed_idempotent(line);
    assert(t.len() > 0);
    assert(t[0] != '|');
    assert(t.last() != '|');
    assert(!has_prefix(t, seq!['|', '|'])) by {
        if has_prefix(t, seq!['|', '|']) {
            assert(t.take(2)[0] == t[0]);
        }
    }
    lemma_tail_regex_spells(t);
}

/// A host is matched literally: every character of it, any regex
/// metacharacter behind a backslash.
proof fn lemma_literal_regex_spells(h: Seq<char>)
    ensures
        spells(literal_regex(h), h),
    decreases h.len(),
{
    if h.len() > 0 {
        let q = literal_regex(h.drop_last());
        lemma_literal_regex_spells(h.drop_last());
        let c = h.last();
        let p = literal_regex(h);
        assert(p == q + literal_piece(c));
        if regex_special(c) {
            assert(literal_piece(c) == seq!['\\', c]);
            assert(p.subrange(0, p.len() - 2) =~= q);
        } else {
            assert(literal_piece(c) == seq![c]);
            assert(p.drop_last() =~= q);
        }
    }
}

/// A `||host^` rule blocks the host and its subdomains over any scheme, up
/// to a separator: its pattern is the scheme-and-subdomain anchor, the host
/// spelled literally, then the separator class.
pub proof fn law_host_rule(line: Seq<char>, host: Seq<char>)
    requires
        trimmed(line) == seq!['|', '|'] + host + seq!['^'],
        !skipped(trimmed(line)),
        forall|i: int| 0 <= i < host.len() ==> host[i] != '/' && host[i] != '^',
    ensures
        line_pattern(line) is Some,
        ({
            let p = line_pattern(line).unwrap();
            let a = "^https?://([^/]+\\.)?"@;
            let e = "[/:?&#]"@;
            &&& a.len() + e.len() <= p.len()
            &&& p.take(a.len() as int) == a
            &&& p.skip(p.len() - e.len()) == e
            &&& spells(p.subrange(a.len() as int, p.len() - e.len()), host)
        }),
{
    let t = trimmed(line);
    crate::browser::lemma_trimmed_idempotent(line);
    assert(has_prefix(t, seq!['|', '|'])) by {
        assert(t.take(2) =~= seq!['|', '|']);
    }
    let rest = t.skip(2);
    assert(rest =~= host + seq!['^']);
    lemma_host_len_stops(host, seq!['^']);
    assert(rest.take(host.len() as int) =~= host);
    assert(rest.skip(host.len() as int) =~= seq!['^']);
    assert(tail_regex(seq!['^']) == tail_regex(seq!['^'].drop_last()) + tail_piece('^'));
    assert(seq!['^'].drop_last() =~= Seq::<char>::empty());
    assert(tail_regex(seq!['^']) =~= separator_class());
    lemma_literal_regex_spells(host);
    let a = "^https?://([^/]+\\.)?"@;
    let e = "[/:?&#]"@;
    let l = literal_regex(host);
    let p = a + l + e;
    assert(p.take(a.len() as int) =~= a);
    assert(p.skip(p.len() - e.len()) =~= e);
    assert(p.subrange(a.len() as int, p.len() - e.len()) =~= l);
}

/// The host part of `host + rest` is `host` when `host` has no `/` or `^`
/// and `rest` starts with one.
proof fn lemma_host_len_stops(host: Seq<char>, rest: Seq<char>)
    requires
        forall|i: int| 0 <= i < host.len() ==> host[i] != '/' && host[i] != '^',
        rest.len() > 0,
        rest[0] == '/' || rest[0] == '^',
    ensures
        host_len(host + rest) == host.len(),
    decreases host.len(),
{
    if host.len() > 0 {
        assert((host + rest).drop_first() =~= host.drop_first() + rest);
        lemma_host_len_stops(host.drop_first(), rest);
    } else {
        assert(host + rest =~= rest);
    }
}

} // verus!
