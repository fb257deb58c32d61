//! Favicon cache for the tab strip.
//!
//! Each host's icon is cached in `<app_data>/favicons/<safe-host>.dat`:
//! the MIME type, a `\n---\n` separator, then the raw bytes. An empty body
//! marks a host whose fetch failed, so it is not fetched again. The shell
//! does the fetching and the file I/O; the library names the files, builds
//! and reads entries, and turns icons into `data:` URLs.

use vstd::prelude::*;
use vstd::string::StringSliceAdditionalSpecFns;
use vstd::utf8::{
    decode_utf8, encode_scalar, encode_utf8, encode_utf8_decode_utf8, encode_utf8_valid_utf8,
    has_width_1_encoding, has_width_2_encoding, has_width_3_encoding, valid_utf8,
};

use crate::b64::{base64, push_base64};
use crate::text::{chars_of, join_path, owned, path_join, push_str, string_from, trim_chars, trimmed};

verus! {

/// Largest favicon accepted, in bytes.
pub const MAX_BYTES: usize = 262144;

/// MIME type recorded for a failed fetch.
pub const MISS_MIME: &'static str = "x-miss";

/// Separates the MIME type from the bytes in a cache entry.
pub open spec fn separator() -> Seq<u8> {
    seq![10u8, 45u8, 45u8, 45u8, 10u8]
}

/// `<app_data>/favicons`.
pub open spec fn favicon_dir(app_data: Seq<char>) -> Seq<char> {
    path_join(app_data, "favicons"@)
}

/// The favicon cache directory.
pub fn dir(app_data: &str) -> (r: String)
    ensures
        r@ == favicon_dir(app_data@),
{
    join_path(app_data, "favicons")
}

/// A host character kept in a file name; anything else becomes `_`.
pub open spec fn safe_char(c: char) -> char {
    if ('a' <= c && c <= 'z') || ('A' <= c && c <= 'Z') || ('0' <= c && c <= '9') || c == '.'
        || c == '-' {
        c
    } else {
        '_'
    }
}

/// A host made safe for a file name.
pub open spec fn safe(host: Seq<char>) -> Seq<char> {
    host.map_values(|c: char| safe_char(c))
}

/// `host` with every character but ASCII letters, digits, `.` and `-`
/// replaced by `_`.
pub fn safe_host(host: &str) -> (r: String)
    ensures
        r@ == safe(host@),
{
    let cs = chars_of(host);
    let mut out: Vec<char> = Vec::new();
    let mut i: usize = 0;
    while i < cs.len()
        invariant
            0 <= i <= cs@.len(),
            cs@ == host@,
            out@ == safe(cs@.take(i as int)),
        decreases cs.len() - i,
    {
        let c = cs[i];
        let d = if ('a' <= c && c <= 'z') || ('A' <= c && c <= 'Z') || ('0' <= c && c <= '9') || c
            == '.' || c == '-' {
            c
        } else {
            '_'
        };
        out.push(d);
        assert(safe(cs@.take(i + 1)) =~= safe(cs@.take(i as int)).push(safe_char(c)));
        i += 1;
    }
    assert(cs@.take(cs@.len() as int) =~= cs@);
    string_from(&out)
}

/// `<app_data>/favicons/<safe-host>.dat`.
pub open spec fn entry_path(app_data: Seq<char>, host: Seq<char>) -> Seq<char> {
    path_join(favicon_dir(app_data), safe(host) + ".dat"@)
}

/// The cache file of `host`.
pub fn path_for(app_data: &str, host: &str) -> (r: String)
    ensures
        r@ == entry_path(app_data@, host@),
{
    let d = dir(app_data);
    let mut name = safe_host(host);
    push_str(&mut name, ".dat");
    join_path(d.as_str(), name.as_str())
}

/// The bytes of a cache entry.
pub open spec fn payload(mime: Seq<char>, body: Seq<u8>) -> Seq<u8> {
    encode_utf8(mime) + separator() + body
}

/// The bytes of the cache entry for an icon of type `mime`.
pub fn entry_payload(mime: &str, body: &[u8]) -> (r: Vec<u8>)
    ensures
        r@ == payload(mime@, body@),
{
    let mut out: Vec<u8> = Vec::new();
    let mb = mime.as_bytes();
    append_bytes(&mut out, mb);
    let sep: [u8; 5] = [10, 45, 45, 45, 10];
    append_bytes(&mut out, &sep);
    append_bytes(&mut out, body);
    assert(sep@ =~= separator());
    out
}

/// The bytes of the entry marking a failed fetch.
pub fn miss_payload() -> (r: Vec<u8>)
    ensures
        r@ == payload(MISS_MIME@, Seq::empty()),
{
    let empty: [u8; 0] = [];
    let r = entry_payload(MISS_MIME, &empty);
    assert(empty@ =~= Seq::<u8>::empty());
    r
}

/// Append `bs` to `out`.
fn append_bytes(out: &mut Vec<u8>, bs: &[u8])
    ensures
        final(out)@ == old(out)@ + bs@,
{
    let ghost start = out@;
    let mut i: usize = 0;
    while i < bs.len()
        invariant
            0 <= i <= bs@.len(),
            out@ == start + bs@.take(i as int),
        decreases bs.len() - i,
    {
        out.push(bs[i]);
        assert(bs@.take(i + 1) =~= bs@.take(i as int).push(bs@[i as int]));
        assert(out@ =~= start + bs@.take(i + 1));
        i += 1;
    }
    assert(bs@.take(bs@.len() as int) =~= bs@);
}

/// `needle` occurs in `hay` at `i`.
pub open spec fn occurs_at(hay: Seq<u8>, needle: Seq<u8>, i: int) -> bool {
    0 <= i && i + needle.len() <= hay.len() && hay.subrange(i, i + needle.len()) == needle
}

/// Where `needle` first occurs in `hay`; never for an empty needle.
pub open spec fn first_occurrence(hay: Seq<u8>, needle: Seq<u8>) -> Option<int> {
    if needle.len() > 0 && exists|i: int| #[trigger] occurs_at(hay, needle, i) {
        Some(choose|i: int| occurs_at(hay, needle, i) && forall|j: int| 0 <= j < i ==> !occurs_at(hay, needle, j))
    } else {
        None
    }
}

/// Whether `needle` occurs in `hay` at `i`.
fn bytes_match_at(hay: &[u8], i: usize, needle: &[u8]) -> (r: bool)
    requires
        i + needle@.len() <= hay@.len(),
    ensures
        r == occurs_at(hay@, needle@, i as int),
{
    let mut k: usize = 0;
    while k < needle.len()
        invariant
            0 <= k <= needle@.len(),
            i + needle@.len() <= hay@.len(),
            hay@.len() == hay.len(),
            forall|m: int| 0 <= m < k ==> hay@[i + m] == needle@[m],
        decreases needle.len() - k,
    {
        assert(i + k < hay@.len());
        if hay[i + k] != needle[k] {
            assert(hay@.subrange(i as int, i + needle@.len())[k as int] != needle@[k as int]);
            return false;
        }
        k += 1;
    }
    assert(hay@.subrange(i as int, i + needle@.len()) =~= needle@);
    true
}

/// Where `needle` first occurs in `haystack`; `None` for an empty needle.
pub fn find_subslice(haystack: &[u8], needle: &[u8]) -> (r: Option<usize>)
    ensures
        match r {
            Some(i) => needle@.len() > 0 && occurs_at(haystack@, needle@, i as int) && forall|j: int|
                0 <= j < i ==> !occurs_at(haystack@, needle@, j),
            None => needle@.len() == 0 || forall|i: int| !occurs_at(haystack@, needle@, i),
        },
{
    if needle.len() == 0 || haystack.len() < needle.len() {
        return None;
    }
    let last = haystack.len() - needle.len();
    let mut i: usize = 0;
    while i <= last
        invariant
            0 <= i <= last + 1,
            needle@.len() > 0,
            last == haystack@.len() - needle@.len(),
            haystack@.len() == haystack.len(),
            forall|j: int| 0 <= j < i ==> !occurs_at(haystack@, needle@, j),
        decreases last + 1 - i,
    {
        if bytes_match_at(haystack, i, needle) {
            return Some(i);
        }
        i += 1;
    }
    None
}

/// What a cache entry holds: its MIME type and bytes, unless it lacks the
/// separator, its type is not UTF-8, or its body is empty (a recorded
/// miss).
pub open spec fn parsed_entry(bytes: Seq<u8>) -> Option<(Seq<char>, Seq<u8>)> {
    match first_occurrence(bytes, separator()) {
        None => None,
        Some(i) => {
            let head = bytes.take(i);
            let body = bytes.skip(i + 5);
            if !valid_utf8(head) || body.len() == 0 {
                None
            } else {
                Some((decode_utf8(head), body))
            }
        },
    }
}

/// `std::str::from_utf8`, owned: the text the bytes encode, if they are
/// valid UTF-8.
#[verifier::external_body]
fn utf8_text(bs: &[u8]) -> (r: Option<String>)
    ensures
        match r {
            Some(s) => valid_utf8(bs@) && s@ == decode_utf8(bs@),
            None => !valid_utf8(bs@),
        },
{
    std::str::from_utf8(bs).ok().map(|s| s.to_string())
}

/// Bytes `bs[from..to]`.
fn byte_range(bs: &[u8], from: usize, to: usize) -> (r: Vec<u8>)
    requires
        from <= to <= bs@.len(),
    ensures
        r@ == bs@.subrange(from as int, to as int),
{
    let mut out: Vec<u8> = Vec::new();
    let mut i = from;
    while i < to
        invariant
            from <= i <= to <= bs@.len(),
            out@ == bs@.subrange(from as int, i as int),
        decreases to - i,
    {
        out.push(bs[i]);
        assert(out@ =~= bs@.subrange(from as int, i + 1));
        i += 1;
    }
    out
}

/// Read a cache entry: its MIME type and bytes, if it holds an icon.
pub fn parse_entry(bytes: &[u8]) -> (r: Option<(String, Vec<u8>)>)
    ensures
        match r {
            Some((m, b)) => parsed_entry(bytes@) == Some((m@, b@)),
            None => parsed_entry(bytes@) is None,
        },
{
    let sep: [u8; 5] = [10, 45, 45, 45, 10];
    assert(sep@ =~= separator());
    let split = match find_subslice(bytes, &sep) {
        Some(i) => i,
        None => {
            proof {
                assert(!(exists|i: int| #[trigger] occurs_at(bytes@, separator(), i)));
            }
            return None;
        },
    };
    proof {
        let f = first_occurrence(bytes@, separator());
        assert(occurs_at(bytes@, separator(), split as int));
        let c = choose|i: int|
            occurs_at(bytes@, separator(), i) && forall|j: int|
                0 <= j < i ==> !occurs_at(bytes@, separator(), j);
        assert(c == split) by {
            if c < split {
            } else if c > split {
            }
        }
    }
    assert(split + 5 <= bytes@.len());
    assert(bytes@.len() == bytes.len());
    let head = byte_range(bytes, 0, split);
    assert(head@ =~= bytes@.take(split as int));
    let mime = match utf8_text(&head) {
        Some(m) => m,
        None => return None,
    };
    let body = byte_range(bytes, split + 5, bytes.len());
    assert(body@ =~= bytes@.skip(split + 5));
    if body.len() == 0 {
        return None;
    }
    Some((mime, body))
}

/// `data:<mime>;base64,` and the base64 of the bytes.
pub open spec fn icon_data_url(mime: Seq<char>, body: Seq<u8>) -> Seq<char> {
    "data:"@ + mime + ";base64,"@ + base64(body)
}

/// A `data:` URL to drop straight into an `<img src>`.
pub fn data_url(mime: &str, body: &[u8]) -> (r: String)
    ensures
        r@ == icon_data_url(mime@, body@),
{
    let mut out = owned("data:");
    push_str(&mut out, mime);
    push_str(&mut out, ";base64,");
    push_base64(&mut out, body);
    out
}

/// The part of a `Content-Type` before any `;`.
pub open spec fn before_semicolon(s: Seq<char>) -> Seq<char>
    decreases s.len(),
{
    if s.len() == 0 {
        s
    } else if s[0] == ';' {
        Seq::empty()
    } else {
        seq![s[0]] + before_semicolon(s.drop_first())
    }
}

/// The MIME type an icon is cached under: the `Content-Type` up to its
/// parameters, trimmed, or `image/x-icon` when that is empty or absent.
pub open spec fn icon_mime(content_type: Option<Seq<char>>) -> Seq<char> {
    let t = match content_type {
        Some(c) => trimmed(before_semicolon(c)),
        None => Seq::empty(),
    };
    if t.len() == 0 {
        "image/x-icon"@
    } else {
        t
    }
}

/// The MIME type to cache a fetched icon under.
pub fn favicon_mime(content_type: Option<&str>) -> (r: String)
    ensures
        r@ == icon_mime(
            match content_type {
                Some(c) => Some(c@),
                None => None,
            },
        ),
{
    let t: Vec<char> = match content_type {
        Some(c) => {
            let cs = chars_of(c);
            let mut k: usize = 0;
            proof {
                assert(cs@.take(0) =~= Seq::<char>::empty());
                assert(cs@.skip(0) =~= cs@);
            }
            while k < cs.len() && cs[k] != ';'
                invariant
                    0 <= k <= cs@.len(),
                    forall|j: int| 0 <= j < k ==> cs@[j] != ';',
                    before_semicolon(cs@) == cs@.take(k as int) + before_semicolon(cs@.skip(k as int)),
                decreases cs.len() - k,
            {
                let ghost rest = cs@.skip(k as int);
                assert(rest.drop_first() =~= cs@.skip(k + 1));
                assert(cs@.take(k + 1) =~= cs@.take(k as int) + seq![rest[0]]);
                k += 1;
            }
            let head = crate::text::slice_vec(&cs, 0, k);
            assert(cs@.skip(k as int).len() == 0 || cs@.skip(k as int)[0] == ';');
            assert(head@ =~= before_semicolon(cs@)) by {
                assert(head@ =~= cs@.take(k as int));
            }
            trim_chars(&head)
        },
        None => Vec::new(),
    };
    if t.len() == 0 {
        owned("image/x-icon")
    } else {
        string_from(&t)
    }
}

/// Whether a fetched body is cached as an icon (otherwise a miss is).
pub fn accept_body(len: usize) -> (r: bool)
    ensures
        r == (0 < len && len <= MAX_BYTES),
{
    0 < len && len <= MAX_BYTES
}

/// `https://<host>/favicon.ico`.
pub fn favicon_url(host: &str) -> (r: String)
    ensures
        r@ == "https://"@ + host@ + "/favicon.ico"@,
{
    let mut out = owned("https://");
    push_str(&mut out, host);
    push_str(&mut out, "/favicon.ico");
    out
}

/// No byte of a character's UTF-8 encoding is a newline, unless the
/// character is one.
proof fn lemma_scalar_bytes_not_newline(c: char)
    requires
        c != '\n',
    ensures
        forall|i: int|
            0 <= i < encode_scalar(c as u32).len() ==> #[trigger] encode_scalar(c as u32)[i] != 10u8,
{
    let v = c as u32;
    vstd::utf8::char_is_scalar(c);
    if has_width_1_encoding(v) {
        assert((v & 0x7F) as u8 != 10u8) by (bit_vector)
            requires
                v <= 0x7F,
                v != 10u32,
        ;
    } else {
        let b1 = ((v >> 6) & 0x1F) as u8;
        let b2 = ((v >> 12) & 0x0F) as u8;
        let b3 = ((v >> 18) & 0x7) as u8;
        let c1 = (v & 0x3F) as u8;
        let c2 = ((v >> 6) & 0x3F) as u8;
        let c3 = ((v >> 12) & 0x3F) as u8;
        assert(0xC0u8 | b1 != 10u8) by (bit_vector);
        assert(0xE0u8 | b2 != 10u8) by (bit_vector);
        assert(0xF0u8 | b3 != 10u8) by (bit_vector);
        assert(0x80u8 | c1 != 10u8) by (bit_vector);
        assert(0x80u8 | c2 != 10u8) by (bit_vector);
        assert(0x80u8 | c3 != 10u8) by (bit_vector);
    }
}

/// Text without a newline encodes without a newline byte.
proof fn lemma_encoded_has_no_newline(s: Seq<char>)
    requires
        forall|i: int| 0 <= i < s.len() ==> s[i] != '\n',
    ensures
        forall|i: int| 0 <= i < encode_utf8(s).len() ==> #[trigger] encode_utf8(s)[i] != 10u8,
    decreases s.len(),
{
    if s.len() > 0 {
        let rest = s.drop_first();
        lemma_encoded_has_no_newline(rest);
        lemma_scalar_bytes_not_newline(s[0]);
        let a = encode_scalar(s[0] as u32);
        let b = encode_utf8(rest);
        assert(encode_utf8(s) == a + b);
        assert forall|i: int| 0 <= i < (a + b).len() implies #[trigger] (a + b)[i] != 10u8 by {
            if i < a.len() {
                assert((a + b)[i] == a[i]);
            } else {
                assert((a + b)[i] == b[i - a.len()]);
            }
        }
    }
}

/// An entry written for an icon reads back as the same MIME type and
/// bytes, for a type without a newline (every MIME type) and a non-empty
/// body; an empty body reads back as a recorded miss.
pub proof fn lemma_entry_round_trip(mime: Seq<char>, body: Seq<u8>)
    requires
        forall|i: int| 0 <= i < mime.len() ==> mime[i] != '\n',
    ensures
        body.len() > 0 ==> parsed_entry(payload(mime, body)) == Some((mime, body)),
        body.len() == 0 ==> parsed_entry(payload(mime, body)) is None,
{
    let enc = encode_utf8(mime);
    let p = payload(mime, body);
    let m = enc.len() as int;
    lemma_encoded_has_no_newline(mime);
    encode_utf8_valid_utf8(mime);
    encode_utf8_decode_utf8(mime);
    assert(p.subrange(m, m + 5) =~= separator());
    assert(occurs_at(p, separator(), m));
    assert forall|j: int| 0 <= j < m implies !occurs_at(p, separator(), j) by {
        if occurs_at(p, separator(), j) {
            assert(p.subrange(j, j + 5)[0] == p[j]);
            assert(p[j] == enc[j]);
        }
    }
    let c = choose|i: int|
        occurs_at(p, separator(), i) && forall|j: int| 0 <= j < i ==> !occurs_at(p, separator(), j);
    assert(c == m) by {
        if c < m {
        } else if c > m {
        }
    }
    assert(p.take(m) =~= enc);
    assert(p.skip(m + 5) =~= body);
}

/// The entry that marks a failed fetch reads back as nothing: a miss is
/// never taken for an icon.
pub proof fn law_miss_reads_back_empty()
    ensures
        parsed_entry(payload(MISS_MIME@, Seq::empty())) is None,
{
    reveal_strlit("x-miss");
    assert(MISS_MIME@ == "x-miss"@);
    lemma_entry_round_trip(MISS_MIME@, Seq::empty());
}

} // verus!
