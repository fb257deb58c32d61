//! Escaping text for HTML, shared by the pages the browser renders itself.

use vstd::prelude::*;

use crate::text::{chars_of, concat_map, lemma_concat_map_step, push_char, push_str};

verus! {

/// The escape of one character in HTML text or an attribute value.
pub open spec fn html_char(c: char) -> Seq<char> {
    if c == '<' {
        "&lt;"@
    } else if c == '>' {
        "&gt;"@
    } else if c == '&' {
        "&amp;"@
    } else if c == '"' {
        "&quot;"@
    } else if c == '\'' {
        "&#39;"@
    } else {
        seq![c]
    }
}

/// `s` with `<`, `>`, `&`, `"` and `'` replaced by entities.
pub open spec fn html_escaped(s: Seq<char>) -> Seq<char> {
    concat_map(s, |c: char| html_char(c))
}

/// `s` escaped and appended to `out`.
pub fn push_escaped(out: &mut String, s: &str)
    ensures
        final(out)@ == old(out)@ + html_escaped(s@),
{
    let cs = chars_of(s);
    let ghost start = out@;
    let ghost f = |c: char| html_char(c);
    let mut i: usize = 0;
    assert(cs@.take(0) =~= Seq::<char>::empty());
    assert(start + concat_map(cs@.take(0), f) =~= start);
    while i < cs.len()
        invariant
            0 <= i <= cs@.len(),
            cs@ == s@,
            f == (|c: char| html_char(c)),
            out@ == start + concat_map(cs@.take(i as int), f),
        decreases cs.len() - i,
    {
        let c = cs[i];
        proof {
            lemma_concat_map_step(cs@, i as int, f);
        }
        if c == '<' {
            push_str(out, "&lt;");
        } else if c == '>' {
            push_str(out, "&gt;");
        } else if c == '&' {
            push_str(out, "&amp;");
        } else if c == '"' {
            push_str(out, "&quot;");
        } else if c == '\'' {
            push_str(out, "&#39;");
        } else {
            push_char(out, c);
            assert(seq![c] == html_char(c));
        }
        assert(out@ =~= start + concat_map(cs@.take(i + 1), f));
        i += 1;
    }
    assert(cs@.take(cs@.len() as int) =~= cs@);
}

/// `s` with `<`, `>`, `&`, `"` and `'` replaced by entities.
pub fn escape_html(s: &str) -> (r: String)
    ensures
        r@ == html_escaped(s@),
{
    let mut out = String::new();
    push_escaped(&mut out, s);
    assert(Seq::<char>::empty() + html_escaped(s@) =~= html_escaped(s@));
    out
}

/// Attribute values are escaped the same way as text.
pub fn escape_attr(s: &str) -> (r: String)
    ensures
        r@ == html_escaped(s@),
{
    escape_html(s)
}

/// No escaped text holds a raw `<`, `>` or `"`: markup cannot be injected
/// through it, in text or in an attribute value.
pub proof fn lemma_escaped_is_inert(s: Seq<char>)
    ensures
        forall|i: int|
            0 <= i < html_escaped(s).len() ==> #[trigger] html_escaped(s)[i] != '<'
                && html_escaped(s)[i] != '>' && html_escaped(s)[i] != '"',
    decreases s.len(),
{
    if s.len() > 0 {
        lemma_escaped_is_inert(s.drop_last());
        let f = |c: char| html_char(c);
        let a = html_escaped(s.drop_last());
        let b = html_char(s.last());
        assert(html_escaped(s) == a + b);
        reveal_strlit("&lt;");
        reveal_strlit("&gt;");
        reveal_strlit("&amp;");
        reveal_strlit("&quot;");
        reveal_strlit("&#39;");
        assert forall|i: int| 0 <= i < (a + b).len() implies #[trigger] (a + b)[i] != '<' && (a
            + b)[i] != '>' && (a + b)[i] != '"' by {
            if i >= a.len() {
                assert((a + b)[i] == b[i - a.len()]);
            } else {
                assert((a + b)[i] == a[i]);
            }
        }
    }
}

} // verus!
