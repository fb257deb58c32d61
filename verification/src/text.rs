//! Character-level string helpers shared by the rest of the library.
//!
//! Strings are reasoned about through their `Seq<char>` view. The helpers
//! here give exact contracts for the handful of `str` operations the rest
//! of the crate needs (trimming, prefix tests, ASCII case folding, decimal
//! and hex rendering).

use vstd::prelude::*;

verus! {

// ---------------------------------------------------------------------
// Trusted std string builders
// ---------------------------------------------------------------------

/// `String::push`: appends one character.
#[verifier::external_body]
pub(crate) fn push_char(s: &mut String, c: char)
    ensures
        final(s)@ == old(s)@.push(c),
{
    s.push(c);
}

/// Appends a string slice.
pub(crate) fn push_str(s: &mut String, t: &str)
    ensures
        final(s)@ == old(s)@ + t@,
{
    s.append(t);
}

/// The characters of `s`, in order.
pub fn chars_of(s: &str) -> (v: Vec<char>)
    ensures
        v@ == s@,
{
    let mut v: Vec<char> = Vec::new();
    for c in it: s.chars()
        invariant
            v@ == it.seq().take(it.index() as int),
    {
        v.push(c);
    }
    v
}

/// A `String` holding exactly the characters `cs[from..to]`.
pub fn string_of(cs: &[char], from: usize, to: usize) -> (s: String)
    requires
        from <= to <= cs@.len(),
    ensures
        s@ == cs@.subrange(from as int, to as int),
{
    let mut s = String::new();
    let mut i = from;
    while i < to
        invariant
            from <= i <= to <= cs@.len(),
            s@ == cs@.subrange(from as int, i as int),
        decreases to - i,
    {
        push_char(&mut s, cs[i]);
        assert(cs@.subrange(from as int, i + 1) =~= cs@.subrange(from as int, i as int).push(
            cs@[i as int],
        ));
        i += 1;
    }
    s
}

/// A `String` holding exactly the characters of `cs`.
pub fn string_from(cs: &[char]) -> (s: String)
    ensures
        s@ == cs@,
{
    let s = string_of(cs, 0, cs.len());
    assert(cs@.subrange(0, cs@.len() as int) =~= cs@);
    s
}

/// Owned copy of a string slice.
pub fn owned(t: &str) -> (s: String)
    ensures
        s@ == t@,
{
    let mut s = String::new();
    push_str(&mut s, t);
    assert(Seq::<char>::empty() + t@ =~= t@);
    s
}

// ---------------------------------------------------------------------
// Views of strings and documents
// ---------------------------------------------------------------------

/// The view of an optional string.
pub open spec fn opt_view(o: Option<String>) -> Option<Seq<char>> {
    match o {
        Some(s) => Some(s@),
        None => None,
    }
}

/// Views of a list of strings.
pub open spec fn views(v: Seq<String>) -> Seq<Seq<char>> {
    v.map_values(|s: String| s@)
}

/// The lines of a document, split at `\n`.
///
/// A final empty remainder, a trailing `\r` and blank lines never yield a
/// pattern, so filtering these lines gives what `str::lines` would.
pub open spec fn split_lines(s: Seq<char>) -> Seq<Seq<char>>
    decreases s.len(),
{
    if s.len() == 0 {
        seq![Seq::<char>::empty()]
    } else {
        let p = split_lines(s.drop_last());
        if s.last() == '\n' {
            p.push(Seq::<char>::empty())
        } else {
            p.update(p.len() - 1, p.last().push(s.last()))
        }
    }
}

/// Position of the first string of `v` that holds exactly `cs`.
pub fn position_of(v: &Vec<String>, cs: &[char]) -> (r: Option<usize>)
    ensures
        match r {
            Some(k) => k < v@.len() && v@[k as int]@ == cs@
                && forall|j: int| 0 <= j < k ==> v@[j]@ != cs@,
            None => !views(v@).contains(cs@),
        },
{
    let mut i: usize = 0;
    while i < v.len()
        invariant
            0 <= i <= v@.len(),
            forall|j: int| 0 <= j < i ==> v@[j]@ != cs@,
        decreases v.len() - i,
    {
        let x = chars_of(v[i].as_str());
        if chars_eq(&x, cs) {
            return Some(i);
        }
        i += 1;
    }
    proof {
        if views(v@).contains(cs@) {
            let k = choose|k: int| 0 <= k < views(v@).len() && views(v@)[k] == cs@;
            assert(v@[k]@ == cs@);
        }
    }
    None
}

/// The pieces of `s` between occurrences of `sep` (`str::split`).
pub open spec fn split_on(s: Seq<char>, sep: char) -> Seq<Seq<char>>
    decreases s.len(),
{
    if s.len() == 0 {
        seq![Seq::<char>::empty()]
    } else {
        let p = split_on(s.drop_last(), sep);
        if s.last() == sep {
            p.push(Seq::<char>::empty())
        } else {
            p.update(p.len() - 1, p.last().push(s.last()))
        }
    }
}

/// There is always at least one piece.
pub proof fn lemma_split_on_nonempty(s: Seq<char>, sep: char)
    ensures
        split_on(s, sep).len() >= 1,
    decreases s.len(),
{
    if s.len() > 0 {
        lemma_split_on_nonempty(s.drop_last(), sep);
    }
}

/// The views of a list of character vectors.
pub open spec fn char_views(v: Seq<Vec<char>>) -> Seq<Seq<char>> {
    v.map_values(|x: Vec<char>| x@)
}

/// `cs.split(sep)`, collected.
pub fn split_chars(cs: &[char], sep: char) -> (r: Vec<Vec<char>>)
    ensures
        char_views(r@) == split_on(cs@, sep),
{
    let mut out: Vec<Vec<char>> = Vec::new();
    let mut cur: Vec<char> = Vec::new();
    let mut i: usize = 0;
    assert(cs@.take(0) =~= Seq::<char>::empty());
    assert(split_on(cs@.take(0), sep) =~= char_views(out@).push(cur@));
    while i < cs.len()
        invariant
            0 <= i <= cs@.len(),
            split_on(cs@.take(i as int), sep) == char_views(out@).push(cur@),
        decreases cs.len() - i,
    {
        let c = cs[i];
        assert(cs@.take(i + 1).drop_last() =~= cs@.take(i as int));
        assert(cs@.take(i + 1).last() == c);
        if c == sep {
            let ghost before = out@;
            let done = cur;
            out.push(done);
            cur = Vec::new();
            assert(char_views(out@) =~= char_views(before).push(done@));
            assert(split_on(cs@.take(i + 1), sep) =~= char_views(out@).push(cur@));
        } else {
            let ghost old_cur = cur@;
            cur.push(c);
            assert(split_on(cs@.take(i + 1), sep) =~= char_views(out@).push(cur@));
        }
        i += 1;
    }
    let ghost before = out@;
    let last = cur;
    out.push(last);
    assert(char_views(out@) =~= char_views(before).push(last@));
    assert(cs@.take(cs@.len() as int) =~= cs@);
    out
}

/// How many times `c` occurs in `s`.
pub open spec fn count_char(s: Seq<char>, c: char) -> nat
    decreases s.len(),
{
    if s.len() == 0 {
        0
    } else {
        count_char(s.drop_last(), c) + if s.last() == c {
            1nat
        } else {
            0nat
        }
    }
}

/// `s.matches(c).count()` for a single character `c`.
pub fn count_of(cs: &[char], c: char) -> (r: usize)
    ensures
        r == count_char(cs@, c),
{
    let mut n: usize = 0;
    let mut i: usize = 0;
    while i < cs.len()
        invariant
            0 <= i <= cs@.len(),
            n == count_char(cs@.take(i as int), c),
            n <= i,
        decreases cs.len() - i,
    {
        assert(cs@.take(i + 1).drop_last() =~= cs@.take(i as int));
        if cs[i] == c {
            n += 1;
        }
        i += 1;
    }
    assert(cs@.take(cs@.len() as int) =~= cs@);
    n
}

// ---------------------------------------------------------------------
// Flat mapping of a character sequence
// ---------------------------------------------------------------------

/// Concatenation of `f(c)` over every character `c` of `s`, in order.
pub open spec fn concat_map(s: Seq<char>, f: spec_fn(char) -> Seq<char>) -> Seq<char>
    decreases s.len(),
{
    if s.len() == 0 {
        Seq::empty()
    } else {
        concat_map(s.drop_last(), f) + f(s.last())
    }
}

/// One more character of the input extends the flat map by its image.
pub proof fn lemma_concat_map_step(s: Seq<char>, i: int, f: spec_fn(char) -> Seq<char>)
    requires
        0 <= i < s.len(),
    ensures
        concat_map(s.take(i + 1), f) == concat_map(s.take(i), f) + f(s[i]),
{
    assert(s.take(i + 1).drop_last() =~= s.take(i));
}

/// The flat map of a concatenation is the concatenation of flat maps.
pub proof fn lemma_concat_map_append(a: Seq<char>, b: Seq<char>, f: spec_fn(char) -> Seq<char>)
    ensures
        concat_map(a + b, f) == concat_map(a, f) + concat_map(b, f),
    decreases b.len(),
{
    if b.len() == 0 {
        assert(a + b =~= a);
        assert(concat_map(a, f) + Seq::<char>::empty() =~= concat_map(a, f));
    } else {
        assert((a + b).drop_last() =~= a + b.drop_last());
        lemma_concat_map_append(a, b.drop_last(), f);
        assert(concat_map(a, f) + concat_map(b.drop_last(), f) + f(b.last()) =~= concat_map(a, f)
            + (concat_map(b.drop_last(), f) + f(b.last())));
    }
}

/// Every character of a flat map comes from the image of some input char.
pub proof fn lemma_concat_map_chars(
    s: Seq<char>,
    f: spec_fn(char) -> Seq<char>,
    p: spec_fn(char) -> bool,
)
    requires
        forall|c: char, k: int| 0 <= k < f(c).len() ==> p(#[trigger] f(c)[k]),
    ensures
        forall|k: int| 0 <= k < concat_map(s, f).len() ==> p(#[trigger] concat_map(s, f)[k]),
    decreases s.len(),
{
    if s.len() > 0 {
        lemma_concat_map_chars(s.drop_last(), f, p);
        let a = concat_map(s.drop_last(), f);
        let b = f(s.last());
        assert forall|k: int| 0 <= k < concat_map(s, f).len() implies p(
            #[trigger] concat_map(s, f)[k],
        ) by {
            if k < a.len() {
                assert(concat_map(s, f)[k] == a[k]);
            } else {
                assert(concat_map(s, f)[k] == b[k - a.len()]);
            }
        }
    }
}

// ---------------------------------------------------------------------
// Whitespace and trimming (`str::trim`)
// ---------------------------------------------------------------------

/// Unicode `White_Space`, the set `char::is_whitespace` tests for.
pub open spec fn is_ws(c: char) -> bool {
    let u = c as u32;
    (0x09 <= u <= 0x0d) || u == 0x20 || u == 0x85 || u == 0xa0 || u == 0x1680 || (0x2000 <= u
        <= 0x200a) || u == 0x2028 || u == 0x2029 || u == 0x202f || u == 0x205f || u == 0x3000
}

/// `char::is_whitespace`.
pub fn is_whitespace(c: char) -> (b: bool)
    ensures
        b == is_ws(c),
{
    let u = c as u32;
    (0x09 <= u && u <= 0x0d) || u == 0x20 || u == 0x85 || u == 0xa0 || u == 0x1680 || (0x2000 <= u
        && u <= 0x200a) || u == 0x2028 || u == 0x2029 || u == 0x202f || u == 0x205f || u == 0x3000
}

/// `s` without its leading whitespace.
pub open spec fn trim_start(s: Seq<char>) -> Seq<char>
    decreases s.len(),
{
    if s.len() > 0 && is_ws(s[0]) {
        trim_start(s.drop_first())
    } else {
        s
    }
}

/// `s` without its trailing whitespace.
pub open spec fn trim_end(s: Seq<char>) -> Seq<char>
    decreases s.len(),
{
    if s.len() > 0 && is_ws(s.last()) {
        trim_end(s.drop_last())
    } else {
        s
    }
}

/// `str::trim`: `s` without leading and trailing whitespace.
pub open spec fn trimmed(s: Seq<char>) -> Seq<char> {
    trim_end(trim_start(s))
}

/// Bounds `[start, end)` of `cs[from..to]` with surrounding whitespace removed.
pub fn trim_bounds(cs: &[char], from: usize, to: usize) -> (r: (usize, usize))
    requires
        from <= to <= cs@.len(),
    ensures
        from <= r.0 <= r.1 <= to,
        cs@.subrange(r.0 as int, r.1 as int) == trimmed(cs@.subrange(from as int, to as int)),
{
    let ghost s = cs@.subrange(from as int, to as int);
    let mut i = from;
    while i < to && is_whitespace(cs[i])
        invariant
            from <= i <= to <= cs@.len(),
            s == cs@.subrange(from as int, to as int),
            trim_start(s) == trim_start(cs@.subrange(i as int, to as int)),
        decreases to - i,
    {
        assert(cs@.subrange(i as int, to as int).drop_first() =~= cs@.subrange(i + 1, to as int));
        i += 1;
    }
    let ghost t = cs@.subrange(i as int, to as int);
    assert(trim_start(t) == t);
    let mut j = to;
    while j > i && is_whitespace(cs[j - 1])
        invariant
            from <= i <= j <= to <= cs@.len(),
            t == cs@.subrange(i as int, to as int),
            trim_end(t) == trim_end(cs@.subrange(i as int, j as int)),
        decreases j - i,
    {
        assert(cs@.subrange(i as int, j as int).drop_last() =~= cs@.subrange(i as int, j - 1));
        j -= 1;
    }
    let ghost u = cs@.subrange(i as int, j as int);
    assert(trim_end(u) == u);
    (i, j)
}

/// `str::trim` on a whole character buffer, as characters.
pub fn trim_chars(cs: &[char]) -> (r: Vec<char>)
    ensures
        r@ == trimmed(cs@),
{
    let (a, b) = trim_bounds(cs, 0, cs.len());
    assert(cs@.subrange(0, cs@.len() as int) =~= cs@);
    slice_vec(cs, a, b)
}

/// Characters `cs[from..to]` as a fresh vector.
pub fn slice_vec(cs: &[char], from: usize, to: usize) -> (r: Vec<char>)
    requires
        from <= to <= cs@.len(),
    ensures
        r@ == cs@.subrange(from as int, to as int),
{
    let mut r: Vec<char> = Vec::new();
    let mut i = from;
    while i < to
        invariant
            from <= i <= to <= cs@.len(),
            r@ == cs@.subrange(from as int, i as int),
        decreases to - i,
    {
        r.push(cs[i]);
        assert(cs@.subrange(from as int, i + 1) =~= cs@.subrange(from as int, i as int).push(
            cs@[i as int],
        ));
        i += 1;
    }
    r
}

/// Trimming leaves no whitespace at either end.
pub proof fn lemma_trimmed_ends(s: Seq<char>)
    ensures
        trimmed(s).len() > 0 ==> !is_ws(trimmed(s)[0]) && !is_ws(trimmed(s).last()),
        trimmed(s).len() <= s.len(),
{
    lemma_trim_start_shape(s);
    lemma_trim_end_shape(trim_start(s));
}

/// `trim_start(s)` is a suffix of `s` that does not begin with whitespace.
pub proof fn lemma_trim_start_shape(s: Seq<char>)
    ensures
        trim_start(s).len() <= s.len(),
        trim_start(s) == s.skip(s.len() - trim_start(s).len()),
        trim_start(s).len() > 0 ==> !is_ws(trim_start(s)[0]),
    decreases s.len(),
{
    if s.len() > 0 && is_ws(s[0]) {
        lemma_trim_start_shape(s.drop_first());
        assert(s.drop_first().skip(s.drop_first().len() - trim_start(s.drop_first()).len())
            =~= s.skip(s.len() - trim_start(s).len()));
    } else {
        assert(s.skip(0) =~= s);
    }
}

/// `trim_end(s)` is a prefix of `s` that does not end with whitespace.
pub proof fn lemma_trim_end_shape(s: Seq<char>)
    ensures
        trim_end(s).len() <= s.len(),
        trim_end(s) == s.take(trim_end(s).len() as int),
        trim_end(s).len() > 0 ==> !is_ws(trim_end(s).last()) && trim_end(s)[0] == s[0],
    decreases s.len(),
{
    if s.len() > 0 && is_ws(s.last()) {
        lemma_trim_end_shape(s.drop_last());
        assert(s.drop_last().take(trim_end(s).len() as int) =~= s.take(trim_end(s).len() as int));
    } else {
        assert(s.take(s.len() as int) =~= s);
    }
}

// ---------------------------------------------------------------------
// Prefixes, suffixes, searching
// ---------------------------------------------------------------------

/// `s` begins with `p`.
pub open spec fn has_prefix(s: Seq<char>, p: Seq<char>) -> bool {
    p.len() <= s.len() && s.take(p.len() as int) == p
}

/// `s` ends with `p`.
pub open spec fn has_suffix(s: Seq<char>, p: Seq<char>) -> bool {
    p.len() <= s.len() && s.skip(s.len() - p.len()) == p
}

/// `p` occurs in `s` starting at position `i`.
pub open spec fn occurs_at(s: Seq<char>, p: Seq<char>, i: int) -> bool {
    0 <= i && i + p.len() <= s.len() && s.subrange(i, i + p.len()) == p
}

/// `p` occurs somewhere in `s` (`str::contains`).
pub open spec fn has_sub(s: Seq<char>, p: Seq<char>) -> bool {
    exists|i: int| occurs_at(s, p, i)
}

/// Whether `p` occurs in `cs` at position `i`.
pub fn matches_at(cs: &[char], i: usize, p: &[char]) -> (b: bool)
    requires
        i <= cs@.len(),
    ensures
        b == occurs_at(cs@, p@, i as int),
{
    if p.len() > cs.len() - i {
        return false;
    }
    let mut k: usize = 0;
    while k < p.len()
        invariant
            i + p@.len() <= cs@.len(),
            i <= cs@.len(),
            cs@.len() == cs.len(),
            0 <= k <= p@.len(),
            forall|m: int| 0 <= m < k ==> cs@[i + m] == p@[m],
        decreases p.len() - k,
    {
        if cs[i + k] != p[k] {
            assert(cs@.subrange(i as int, i + p@.len())[k as int] != p@[k as int]);
            return false;
        }
        k += 1;
    }
    assert(cs@.subrange(i as int, i + p@.len()) =~= p@);
    true
}

/// Whether `cs` begins with the string `p`.
pub fn starts_with(cs: &[char], p: &str) -> (b: bool)
    ensures
        b == has_prefix(cs@, p@),
{
    let pv = chars_of(p);
    let r = matches_at(cs, 0, &pv);
    assert(r ==> cs@.take(p@.len() as int) =~= cs@.subrange(0, p@.len() as int));
    assert(has_prefix(cs@, p@) ==> cs@.take(p@.len() as int) =~= cs@.subrange(
        0,
        p@.len() as int,
    ));
    r
}

/// Whether `cs` ends with the string `p`.
pub fn ends_with(cs: &[char], p: &str) -> (b: bool)
    ensures
        b == has_suffix(cs@, p@),
{
    let pv = chars_of(p);
    if pv.len() > cs.len() {
        return false;
    }
    let i = cs.len() - pv.len();
    let r = matches_at(cs, i, &pv);
    assert(cs@.skip(i as int) =~= cs@.subrange(i as int, i + p@.len()));
    r
}

/// Whether the string `p` occurs in `cs` (`str::contains`).
pub fn contains_str(cs: &[char], p: &str) -> (b: bool)
    ensures
        b == has_sub(cs@, p@),
{
    let pv = chars_of(p);
    let mut i: usize = 0;
    while i < cs.len()
        invariant
            0 <= i <= cs@.len(),
            pv@ == p@,
            forall|m: int| 0 <= m < i ==> !occurs_at(cs@, p@, m),
        decreases cs.len() - i,
    {
        if matches_at(cs, i, &pv) {
            return true;
        }
        i += 1;
    }
    if matches_at(cs, cs.len(), &pv) {
        return true;
    }
    assert forall|m: int| !occurs_at(cs@, p@, m) by {
        if 0 <= m && m + p@.len() <= cs@.len() {
        }
    }
    false
}

/// Index of the first `c` in `s`, if any.
pub open spec fn first_index(s: Seq<char>, c: char) -> Option<int> {
    if exists|i: int| 0 <= i < s.len() && s[i] == c {
        Some(choose|i: int| 0 <= i < s.len() && s[i] == c && forall|j: int| 0 <= j < i ==> s[j] != c)
    } else {
        None
    }
}

/// Position of the first `c` in `cs` (`str::find` on a char).
pub fn find_char(cs: &[char], c: char) -> (r: Option<usize>)
    ensures
        r.is_none() ==> forall|i: int| 0 <= i < cs@.len() ==> cs@[i] != c,
        r matches Some(k) ==> k < cs@.len() && cs@[k as int] == c && forall|j: int|
            0 <= j < k ==> cs@[j] != c,
        r.is_none() ==> first_index(cs@, c).is_none(),
        r matches Some(k) ==> first_index(cs@, c) == Some(k as int),
{
    let mut i: usize = 0;
    while i < cs.len()
        invariant
            0 <= i <= cs@.len(),
            forall|j: int| 0 <= j < i ==> cs@[j] != c,
        decreases cs.len() - i,
    {
        if cs[i] == c {
            proof {
                let k = i as int;
                assert(0 <= k < cs@.len() && cs@[k] == c);
                let w = choose|w: int|
                    0 <= w < cs@.len() && cs@[w] == c && forall|j: int| 0 <= j < w ==> cs@[j] != c;
                assert(0 <= k < cs@.len() && cs@[k] == c && forall|j: int| 0 <= j < k ==> cs@[j] != c);
                if w < k {
                } else if w > k {
                    assert(cs@[k] != c);
                }
            }
            return Some(i);
        }
        i += 1;
    }
    None
}

// ---------------------------------------------------------------------
// ASCII case folding
// ---------------------------------------------------------------------

/// `char::to_ascii_lowercase`.
pub open spec fn lower_char(c: char) -> char {
    if 'A' <= c && c <= 'Z' {
        ((c as u32) + 32) as char
    } else {
        c
    }
}

/// `str::to_ascii_lowercase`, as a sequence.
pub open spec fn lower(s: Seq<char>) -> Seq<char> {
    s.map_values(|c: char| lower_char(c))
}

/// Lowering twice lowers once.
pub proof fn lemma_lower_idempotent(s: Seq<char>)
    ensures
        lower(lower(s)) == lower(s),
{
    assert forall|i: int| 0 <= i < s.len() implies lower_char(lower_char(#[trigger] s[i])) == lower_char(
        s[i],
    ) by {
        let c = s[i];
        if 'A' <= c && c <= 'Z' {
            assert(((c as u32) + 32) as char as u32 == (c as u32) + 32);
        }
    }
    assert(lower(lower(s)) =~= lower(s));
}

/// `char::to_ascii_lowercase`.
pub fn to_lower_char(c: char) -> (r: char)
    ensures
        r == lower_char(c),
{
    if 'A' <= c && c <= 'Z' {
        let u = (c as u32) + 32;
        assert(0x61 <= u <= 0x7a);
        char_from_ascii(u as u8)
    } else {
        c
    }
}

/// The ASCII character with code `b`.
pub fn char_from_ascii(b: u8) -> (c: char)
    requires
        b < 128,
    ensures
        c as u32 == b as u32,
{
    b as char
}

/// ASCII lowercase copy of `cs`.
pub fn lower_chars(cs: &[char]) -> (r: Vec<char>)
    ensures
        r@ == lower(cs@),
{
    let mut r: Vec<char> = Vec::new();
    let mut i: usize = 0;
    while i < cs.len()
        invariant
            0 <= i <= cs@.len(),
            r@ =~= lower(cs@.take(i as int)),
        decreases cs.len() - i,
    {
        r.push(to_lower_char(cs[i]));
        assert(lower(cs@.take(i + 1)) =~= lower(cs@.take(i as int)).push(lower_char(cs@[i as int])));
        i += 1;
    }
    assert(cs@.take(cs@.len() as int) =~= cs@);
    r
}

/// `str::to_ascii_lowercase`.
pub fn lowercase(s: &str) -> (r: String)
    ensures
        r@ == lower(s@),
{
    let cs = chars_of(s);
    let l = lower_chars(&cs);
    string_from(&l)
}

/// `s.trim().to_ascii_lowercase()`.
pub fn trim_lowercase(s: &str) -> (r: String)
    ensures
        r@ == lower(trimmed(s@)),
{
    let cs = chars_of(s);
    let t = trim_chars(&cs);
    let l = lower_chars(&t);
    string_from(&l)
}

/// A copy of a list of strings.
pub fn clone_strings(v: &Vec<String>) -> (r: Vec<String>)
    ensures
        views(r@) == views(v@),
{
    let mut r: Vec<String> = Vec::new();
    let mut i: usize = 0;
    while i < v.len()
        invariant
            0 <= i <= v@.len(),
            views(r@) == views(v@).take(i as int),
        decreases v.len() - i,
    {
        let x = owned(v[i].as_str());
        let ghost before = r@;
        r.push(x);
        assert(views(r@) =~= views(before).push(x@));
        assert(views(v@).take(i + 1) =~= views(v@).take(i as int).push(v@[i as int]@));
        i += 1;
    }
    assert(views(v@).take(v@.len() as int) =~= views(v@));
    r
}

/// Whether two character buffers hold the same characters.
pub fn chars_eq(a: &[char], b: &[char]) -> (r: bool)
    ensures
        r == (a@ == b@),
{
    if a.len() != b.len() {
        return false;
    }
    let r = matches_at(a, 0, b);
    assert(a@.subrange(0, b@.len() as int) =~= a@);
    r
}

/// Whether two string slices are equal.
pub fn str_eq(a: &str, b: &str) -> (r: bool)
    ensures
        r == (a@ == b@),
{
    let x = chars_of(a);
    let y = chars_of(b);
    chars_eq(&x, &y)
}

/// `str::eq_ignore_ascii_case`.
pub fn eq_ignore_ascii_case(a: &str, b: &str) -> (r: bool)
    ensures
        r == (lower(a@) == lower(b@)),
{
    let x = chars_of(a);
    let y = chars_of(b);
    let lx = lower_chars(&x);
    let ly = lower_chars(&y);
    chars_eq(&lx, &ly)
}

// ---------------------------------------------------------------------
// Paths
// ---------------------------------------------------------------------

/// `dir` joined with the relative component `name`: a `/` goes between
/// them unless `dir` is empty or already ends with a separator.
pub open spec fn path_join(dir: Seq<char>, name: Seq<char>) -> Seq<char> {
    if dir.len() == 0 {
        name
    } else if dir.last() == '/' || dir.last() == '\\' {
        dir + name
    } else {
        dir + seq!['/'] + name
    }
}

/// `Path::join` with a relative component, on paths held as strings.
pub fn join_path(dir: &str, name: &str) -> (r: String)
    ensures
        r@ == path_join(dir@, name@),
{
    let cs = chars_of(dir);
    let mut out = owned(dir);
    if cs.len() > 0 && cs[cs.len() - 1] != '/' && cs[cs.len() - 1] != '\\' {
        push_char(&mut out, '/');
    }
    push_str(&mut out, name);
    out
}

// ---------------------------------------------------------------------
// Number rendering
// ---------------------------------------------------------------------

/// The ASCII digit for `d < 10`.
pub open spec fn digit(d: nat) -> char {
    (('0' as u32) + d) as char
}

/// Decimal rendering of `n` (as `format!("{n}")` writes it).
pub open spec fn decimal(n: nat) -> Seq<char>
    decreases n,
{
    if n < 10 {
        seq![digit(n)]
    } else {
        decimal(n / 10).push(digit(n % 10))
    }
}

/// Every decimal rendering has at least one digit.
pub proof fn lemma_decimal_nonempty(n: nat)
    ensures
        decimal(n).len() >= 1,
    decreases n,
{
    if n >= 10 {
        lemma_decimal_nonempty(n / 10);
    }
}

/// Digits of distinct values differ.
pub proof fn lemma_digit_injective(a: nat, b: nat)
    requires
        a < 10,
        b < 10,
        digit(a) == digit(b),
    ensures
        a == b,
{
    assert(digit(a) as u32 == 48 + a);
    assert(digit(b) as u32 == 48 + b);
}

/// Distinct numbers have distinct decimal renderings.
pub proof fn lemma_decimal_injective(a: nat, b: nat)
    ensures
        decimal(a) == decimal(b) ==> a == b,
    decreases a,
{
    if decimal(a) == decimal(b) {
        lemma_decimal_nonempty(a / 10);
        lemma_decimal_nonempty(b / 10);
        if a < 10 && b < 10 {
            assert(decimal(a)[0] == digit(a));
            assert(decimal(b)[0] == digit(b));
            lemma_digit_injective(a, b);
        } else if a < 10 {
            assert(decimal(b).len() >= 2);
        } else if b < 10 {
            assert(decimal(a).len() >= 2);
        } else {
            assert(decimal(a).last() == digit(a % 10));
            assert(decimal(b).last() == digit(b % 10));
            lemma_digit_injective(a % 10, b % 10);
            assert(decimal(a / 10) =~= decimal(a).drop_last());
            assert(decimal(b / 10) =~= decimal(b).drop_last());
            lemma_decimal_injective(a / 10, b / 10);
        }
    }
}

/// `format!("{n}")` for an unsigned integer.
pub fn u64_to_decimal(n: u64) -> (s: String)
    ensures
        s@ == decimal(n as nat),
    decreases n,
{
    if n < 10 {
        let mut s = String::new();
        push_char(&mut s, char_from_ascii(48 + n as u8));
        assert(s@ =~= seq![digit(n as nat)]);
        s
    } else {
        let mut s = u64_to_decimal(n / 10);
        push_char(&mut s, char_from_ascii(48 + (n % 10) as u8));
        s
    }
}

/// Lowercase hex digit for `d < 16`.
pub open spec fn hex_lower(d: nat) -> char {
    if d < 10 {
        digit(d)
    } else {
        (('a' as u32) + (d - 10)) as char
    }
}

/// Uppercase hex digit for `d < 16`.
pub open spec fn hex_upper(d: nat) -> char {
    if d < 10 {
        digit(d)
    } else {
        (('A' as u32) + (d - 10)) as char
    }
}

/// Lowercase hex digit character.
pub fn hex_digit_lower(d: u8) -> (c: char)
    requires
        d < 16,
    ensures
        c == hex_lower(d as nat),
{
    if d < 10 {
        char_from_ascii(48 + d)
    } else {
        char_from_ascii(87 + d)
    }
}

/// Uppercase hex digit character.
pub fn hex_digit_upper(d: u8) -> (c: char)
    requires
        d < 16,
    ensures
        c == hex_upper(d as nat),
{
    if d < 10 {
        char_from_ascii(48 + d)
    } else {
        char_from_ascii(55 + d)
    }
}

/// Two lowercase hex digits of a byte (`format!("{b:02x}")`).
pub open spec fn byte_hex_lower(b: u8) -> Seq<char> {
    seq![hex_lower((b / 16) as nat), hex_lower((b % 16) as nat)]
}

/// Two uppercase hex digits of a byte (`format!("{b:02X}")`).
pub open spec fn byte_hex_upper(b: u8) -> Seq<char> {
    seq![hex_upper((b / 16) as nat), hex_upper((b % 16) as nat)]
}

/// The `width` lowest hex digits of `n`, most significant first
/// (`format!("{n:0width$x}")` when `n < 16^width`).
pub open spec fn hex_fixed(n: nat, width: nat) -> Seq<char>
    decreases width,
{
    if width == 0 {
        Seq::empty()
    } else {
        hex_fixed(n / 16, (width - 1) as nat).push(hex_lower(n % 16))
    }
}

/// `width` lowercase hex digits of `n` (zero padded, most significant first).
pub fn u64_to_hex_fixed(n: u64, width: u32) -> (s: String)
    ensures
        s@ == hex_fixed(n as nat, width as nat),
    decreases width,
{
    if width == 0 {
        String::new()
    } else {
        let mut s = u64_to_hex_fixed(n / 16, width - 1);
        push_char(&mut s, hex_digit_lower((n % 16) as u8));
        s
    }
}

} // verus!
