//! Standard base64 (RFC 4648 alphabet, `=` padding), used to inline pages
//! and images as `data:` URLs.

use vstd::prelude::*;

use crate::text::{push_char, push_str};

verus! {

/// The base64 digit for `v < 64`.
pub open spec fn b64_digit(v: int) -> char {
    if v < 26 {
        (('A' as int) + v) as char
    } else if v < 52 {
        (('a' as int) + v - 26) as char
    } else if v < 62 {
        (('0' as int) + v - 52) as char
    } else if v == 62 {
        '+'
    } else {
        '/'
    }
}

/// The four digits of one to three bytes, padded with `=`.
pub open spec fn b64_group(g: Seq<u8>) -> Seq<char> {
    let b0 = g[0] as int;
    let b1 = if g.len() > 1 {
        g[1] as int
    } else {
        0
    };
    let b2 = if g.len() > 2 {
        g[2] as int
    } else {
        0
    };
    seq![
        b64_digit(b0 / 4),
        b64_digit((b0 % 4) * 16 + b1 / 16),
        if g.len() > 1 {
            b64_digit((b1 % 16) * 4 + b2 / 64)
        } else {
            '='
        },
        if g.len() > 2 {
            b64_digit(b2 % 64)
        } else {
            '='
        },
    ]
}

/// Base64 of `bs`: each group of three bytes (the last one possibly
/// shorter) becomes four characters.
pub open spec fn base64(bs: Seq<u8>) -> Seq<char>
    decreases bs.len(),
{
    if bs.len() == 0 {
        Seq::empty()
    } else if bs.len() <= 3 {
        b64_group(bs)
    } else {
        b64_group(bs.take(3)) + base64(bs.skip(3))
    }
}

/// The base64 digit for `v`.
fn digit(v: u8) -> (c: char)
    requires
        v < 64,
    ensures
        c == b64_digit(v as int),
{
    if v < 26 {
        ((65 + v) as u8) as char
    } else if v < 52 {
        ((97 + v - 26) as u8) as char
    } else if v < 62 {
        ((48 + v - 52) as u8) as char
    } else if v == 62 {
        '+'
    } else {
        '/'
    }
}

/// Base64 of the bytes `bs[start..]`, appended to `out`.
fn encode_from(bs: &[u8], out: &mut String)
    ensures
        final(out)@ == old(out)@ + base64(bs@),
{
    let ghost start = out@;
    let mut i: usize = 0;
    assert(bs@.skip(0) =~= bs@);
    while i < bs.len()
        invariant
            0 <= i <= bs@.len(),
            start + base64(bs@) == out@ + base64(bs@.skip(i as int)),
        decreases bs.len() - i,
    {
        let rest = bs.len() - i;
        let b0 = bs[i];
        let b1: u8 = if rest > 1 {
            bs[i + 1]
        } else {
            0
        };
        let b2: u8 = if rest > 2 {
            bs[i + 2]
        } else {
            0
        };
        let ghost tail = bs@.skip(i as int);
        let ghost g = if rest <= 3 {
            tail
        } else {
            tail.take(3)
        };
        assert(g[0] == b0);
        assert(g.len() > 1 ==> g[1] == b1);
        assert(g.len() > 2 ==> g[2] == b2);
        push_char(out, digit(b0 / 4));
        push_char(out, digit((b0 % 4) * 16 + b1 / 16));
        if rest > 1 {
            push_char(out, digit((b1 % 16) * 4 + b2 / 64));
        } else {
            push_char(out, '=');
        }
        if rest > 2 {
            push_char(out, digit(b2 % 64));
        } else {
            push_char(out, '=');
        }
        if rest <= 3 {
            assert(base64(tail) == b64_group(g));
            assert(bs@.skip(bs@.len() as int) =~= Seq::<u8>::empty());
            i = bs.len();
        } else {
            assert(tail.skip(3) =~= bs@.skip(i + 3));
            assert(base64(tail) == b64_group(g) + base64(tail.skip(3)));
            i = i + 3;
        }
    }
    assert(bs@.skip(i as int) =~= Seq::<u8>::empty());
}

/// Base64 of `bs`.
pub fn base64_encode(bs: &[u8]) -> (r: String)
    ensures
        r@ == base64(bs@),
{
    let mut out = String::new();
    encode_from(bs, &mut out);
    out
}

/// Base64 of `bs`, appended to `out`.
pub fn push_base64(out: &mut String, bs: &[u8])
    ensures
        final(out)@ == old(out)@ + base64(bs@),
{
    encode_from(bs, out);
}

} // verus!
