//! The per-launch token the context-menu bridge hands to every tab's init
//! script, so that only pages this launch created can post menu requests.

use vstd::prelude::*;

use vstd::string::StringSliceAdditionalSpecFns;

use crate::text::{hex_digit_lower, hex_lower, opt_view, owned, push_char, str_eq};
use crate::token::is_hex_digit;

verus! {

/// Lowercase hex of `n`, zero-padded to at least `width` digits
/// (`format!("{n:0width$x}")`).
pub open spec fn hex_padded(n: nat, width: nat) -> Seq<char>
    decreases n + width,
{
    if n < 16 && width <= 1 {
        seq![hex_lower(n)]
    } else {
        hex_padded(
            n / 16,
            if width > 0 {
                (width - 1) as nat
            } else {
                0
            },
        ).push(hex_lower(n % 16))
    }
}

/// Append the lowercase hex of `n`, zero-padded to `width` digits.
fn push_hex_padded(out: &mut String, n: u64, width: u32)
    ensures
        final(out)@ == old(out)@ + hex_padded(n as nat, width as nat),
    decreases n as int + width as int,
{
    if n < 16 && width <= 1 {
        push_char(out, hex_digit_lower(n as u8));
        assert(old(out)@.push(hex_lower(n as nat)) =~= old(out)@ + seq![hex_lower(n as nat)]);
    } else {
        let w = if width > 0 {
            width - 1
        } else {
            0
        };
        push_hex_padded(out, n / 16, w);
        push_char(out, hex_digit_lower((n % 16) as u8));
        assert(out@ =~= old(out)@ + hex_padded(n as nat, width as nat));
    }
}

/// `16` to the power `w`.
pub open spec fn pow16(w: nat) -> nat
    decreases w,
{
    if w == 0 {
        1
    } else {
        16 * pow16((w - 1) as nat)
    }
}

/// A number below `16^w` pads to exactly `w` lowercase hex digits.
proof fn lemma_hex_padded_exact(n: nat, w: nat)
    requires
        1 <= w,
        n < pow16(w),
    ensures
        hex_padded(n, w).len() == w,
        forall|i: int| 0 <= i < w ==> is_hex_digit(#[trigger] hex_padded(n, w)[i]),
    decreases w,
{
    if !(n < 16 && w <= 1) {
        let v = (w - 1) as nat;
        assert(pow16(w) == 16 * pow16(v));
        assert(n / 16 < pow16(v)) by (nonlinear_arith)
            requires
                n < 16 * pow16(v),
        ;
        if v == 0 {
            assert(pow16(0) == 1);
        } else {
            lemma_hex_padded_exact(n / 16, v);
        }
        let d = n % 16;
        assert(hex_padded(n, w) == hex_padded(n / 16, v).push(hex_lower(d)));
        assert(is_hex_digit(hex_lower(d)));
    } else {
        assert(is_hex_digit(hex_lower(n)));
    }
}

/// Distinct hex digit values give distinct digits.
proof fn lemma_hex_lower_injective(a: nat, b: nat)
    requires
        a < 16,
        b < 16,
        hex_lower(a) == hex_lower(b),
    ensures
        a == b,
{
    vstd::utf8::char_u32_cast(hex_lower(a), hex_lower(a) as u32);
    vstd::utf8::char_u32_cast(hex_lower(b), hex_lower(b) as u32);
}

/// Two numbers below `16^w` with the same `w`-digit padding are equal.
proof fn lemma_hex_padded_injective(n: nat, m: nat, w: nat)
    requires
        1 <= w,
        n < pow16(w),
        m < pow16(w),
        hex_padded(n, w) == hex_padded(m, w),
    ensures
        n == m,
    decreases w,
{
    let v = (w - 1) as nat;
    assert(pow16(w) == 16 * pow16(v));
    if w == 1 {
        assert(pow16(0) == 1);
        assert(hex_padded(n, w)[0] == hex_lower(n));
        assert(hex_padded(m, w)[0] == hex_lower(m));
        lemma_hex_lower_injective(n, m);
    } else {
        assert(n / 16 < pow16(v)) by (nonlinear_arith)
            requires
                n < 16 * pow16(v),
        ;
        assert(m / 16 < pow16(v)) by (nonlinear_arith)
            requires
                m < 16 * pow16(v),
        ;
        let a = hex_padded(n, w);
        let b = hex_padded(m, w);
        assert(a == hex_padded(n / 16, v).push(hex_lower(n % 16)));
        assert(b == hex_padded(m / 16, v).push(hex_lower(m % 16)));
        assert(a.drop_last() =~= hex_padded(n / 16, v));
        assert(b.drop_last() =~= hex_padded(m / 16, v));
        lemma_hex_padded_injective(n / 16, m / 16, v);
        assert(a.last() == hex_lower(n % 16));
        assert(b.last() == hex_lower(m % 16));
        lemma_hex_lower_injective(n % 16, m % 16);
    }
}

/// `16^8` and `16^16`.
proof fn lemma_pow16_values()
    ensures
        pow16(8) == 0x1_0000_0000,
        pow16(16) == 0x1_0000_0000_0000_0000,
{
    reveal_with_fuel(pow16, 17);
}

/// The token text: 16 hex digits of the launch time in nanoseconds, at
/// least 8 of the process id, at least 8 of a per-process counter.
pub open spec fn token_text(nanos: u64, pid: u32, seq: u64) -> Seq<char> {
    hex_padded(nanos as nat, 16) + hex_padded(pid as nat, 8) + hex_padded(seq as nat, 8)
}

/// A fresh context-menu token from the clock reading `nanos`, the process
/// id and the value of a per-process counter; the shell supplies all
/// three.
pub fn fresh_token(nanos: u64, pid: u32, seq: u64) -> (r: String)
    ensures
        r@ == token_text(nanos, pid, seq),
        seq < 0x1_0000_0000 ==> r@.len() == 32 && forall|i: int|
            0 <= i < 32 ==> is_hex_digit(#[trigger] r@[i]),
{
    let mut out = String::new();
    push_hex_padded(&mut out, nanos, 16);
    push_hex_padded(&mut out, pid as u64, 8);
    push_hex_padded(&mut out, seq, 8);
    assert(out@ =~= token_text(nanos, pid, seq));
    proof {
        if seq < 0x1_0000_0000 {
            lemma_token_shape(nanos, pid, seq);
        }
    }
    out
}

/// Below `2^32` for the counter, the token is 32 lowercase hex digits:
/// 16 of the clock, 8 of the process id, 8 of the counter.
proof fn lemma_token_shape(nanos: u64, pid: u32, seq: u64)
    requires
        seq < 0x1_0000_0000,
    ensures
        hex_padded(nanos as nat, 16).len() == 16,
        hex_padded(pid as nat, 8).len() == 8,
        hex_padded(seq as nat, 8).len() == 8,
        token_text(nanos, pid, seq).len() == 32,
        forall|i: int| 0 <= i < 32 ==> is_hex_digit(#[trigger] token_text(nanos, pid, seq)[i]),
{
    lemma_pow16_values();
    lemma_hex_padded_exact(nanos as nat, 16);
    lemma_hex_padded_exact(pid as nat, 8);
    lemma_hex_padded_exact(seq as nat, 8);
    let a = hex_padded(nanos as nat, 16);
    let b = hex_padded(pid as nat, 8);
    let c = hex_padded(seq as nat, 8);
    let t = token_text(nanos, pid, seq);
    assert forall|i: int| 0 <= i < 32 implies is_hex_digit(#[trigger] t[i]) by {
        if i < 16 {
            assert(t[i] == a[i]);
        } else if i < 24 {
            assert(t[i] == b[i - 16]);
        } else {
            assert(t[i] == c[i - 24]);
        }
    }
}

/// Two tokens are the same text only when made from the same clock
/// reading, process id and counter value (the counter below `2^32`): so
/// within one process, tokens drawn at different counter values differ.
pub proof fn law_tokens_differ(
    nanos1: u64,
    pid1: u32,
    seq1: u64,
    nanos2: u64,
    pid2: u32,
    seq2: u64,
)
    requires
        seq1 < 0x1_0000_0000,
        seq2 < 0x1_0000_0000,
    ensures
        token_text(nanos1, pid1, seq1) == token_text(nanos2, pid2, seq2) ==> nanos1 == nanos2
            && pid1 == pid2 && seq1 == seq2,
{
    lemma_token_shape(nanos1, pid1, seq1);
    lemma_token_shape(nanos2, pid2, seq2);
    let t1 = token_text(nanos1, pid1, seq1);
    let t2 = token_text(nanos2, pid2, seq2);
    if t1 == t2 {
        let a1 = hex_padded(nanos1 as nat, 16);
        let b1 = hex_padded(pid1 as nat, 8);
        let c1 = hex_padded(seq1 as nat, 8);
        let a2 = hex_padded(nanos2 as nat, 16);
        let b2 = hex_padded(pid2 as nat, 8);
        let c2 = hex_padded(seq2 as nat, 8);
        assert(t1.subrange(0, 16) =~= a1);
        assert(t2.subrange(0, 16) =~= a2);
        assert(t1.subrange(16, 24) =~= b1);
        assert(t2.subrange(16, 24) =~= b2);
        assert(t1.subrange(24, 32) =~= c1);
        assert(t2.subrange(24, 32) =~= c2);
        lemma_pow16_values();
        lemma_hex_padded_injective(nanos1 as nat, nanos2 as nat, 16);
        lemma_hex_padded_injective(pid1 as nat, pid2 as nat, 8);
        lemma_hex_padded_injective(seq1 as nat, seq2 as nat, 8);
    }
}

/// Within one process, two tokens drawn at different counter values (both
/// below `2^32`) differ, whatever the clock read.
pub proof fn law_distinct_tokens(nanos1: u64, nanos2: u64, pid: u32, seq1: u64, seq2: u64)
    requires
        seq1 < 0x1_0000_0000,
        seq2 < 0x1_0000_0000,
        seq1 != seq2,
    ensures
        token_text(nanos1, pid, seq1) != token_text(nanos2, pid, seq2),
{
    law_tokens_differ(nanos1, pid, seq1, nanos2, pid, seq2);
}

/// Why an event posted by a tab is refused for its token, if it is: a
/// token of another byte length, or other bytes.
pub open spec fn token_refusal(expected: &str, token: &str) -> Option<Seq<char>> {
    if token.spec_bytes().len() != expected.spec_bytes().len() {
        Some("token length mismatch"@)
    } else if token@ != expected@ {
        Some("token mismatch"@)
    } else {
        None
    }
}

/// Check the token a tab posted an event with against this launch's.
pub fn check_event_token(expected: &str, token: &str) -> (r: Result<(), String>)
    ensures
        r is Ok <==> token_refusal(expected, token) is None,
        r matches Err(m) ==> token_refusal(expected, token) == Some(m@),
{
    if token.as_bytes().len() != expected.as_bytes().len() {
        return Err(owned("token length mismatch"));
    }
    if !str_eq(token, expected) {
        return Err(owned("token mismatch"));
    }
    Ok(())
}

/// An event a tab's init script posts, without the click position the
/// shell carries alongside.
#[derive(Debug)]
pub enum TabEventKind {
    /// A right-click or long-press on `page`, with what was under it.
    Open {
        page: String,
        link: Option<String>,
        link_text: Option<String>,
        image: Option<String>,
        sel: Option<String>,
    },
    /// The menu should close.
    Dismiss,
    /// A relayed keyboard shortcut (`key` in lower case).
    Kbd { key: String, shift: bool },
    /// A middle-click on a link to `url`.
    Middleclick { url: String },
}

/// What the shell is asked to do, without the click position.
#[derive(Debug)]
pub enum MenuRequest {
    Open {
        page_url: String,
        link_url: Option<String>,
        link_text: Option<String>,
        image_url: Option<String>,
        selection_text: Option<String>,
    },
    Dismiss,
    KeyboardShortcut { key: String, shift: bool },
    OpenInNewTab { url: String },
}

/// `o`, with an empty text read as absent.
pub open spec fn present_text(o: Option<Seq<char>>) -> Option<Seq<char>> {
    match o {
        Some(t) => if t.len() > 0 {
            Some(t)
        } else {
            None
        },
        None => None,
    }
}

/// `o`, with an empty text dropped.
fn non_empty(o: Option<String>) -> (r: Option<String>)
    ensures
        opt_view(r) == present_text(opt_view(o)),
{
    match o {
        Some(t) => if t.as_str().is_empty() {
            None
        } else {
            Some(t)
        },
        None => None,
    }
}

/// Turn a posted event into a request: empty fields of a menu request
/// are dropped; a shortcut without a key and a middle-click without a
/// URL are refused.
pub fn to_request(event: TabEventKind) -> (r: Result<MenuRequest, String>)
    ensures
        match event {
            TabEventKind::Open { page, link, link_text, image, sel } => r matches Ok(
                MenuRequest::Open { page_url, link_url, link_text: lt, image_url, selection_text },
            ) && page_url@ == page@ && opt_view(link_url) == present_text(opt_view(link)) && opt_view(lt)
                == present_text(opt_view(link_text)) && opt_view(image_url) == present_text(
                opt_view(image),
            ) && opt_view(selection_text) == present_text(opt_view(sel)),
            TabEventKind::Dismiss => r matches Ok(MenuRequest::Dismiss),
            TabEventKind::Kbd { key, shift } => if key@.len() == 0 {
                r matches Err(m) && m@ == "kbd event missing key"@
            } else {
                r matches Ok(MenuRequest::KeyboardShortcut { key: k, shift: s }) && k@ == key@ && s
                    == shift
            },
            TabEventKind::Middleclick { url } => if url@.len() == 0 {
                r matches Err(m) && m@ == "middleclick event missing url"@
            } else {
                r matches Ok(MenuRequest::OpenInNewTab { url: u }) && u@ == url@
            },
        },
{
    match event {
        TabEventKind::Open { page, link, link_text, image, sel } => Ok(
            MenuRequest::Open {
                page_url: page,
                link_url: non_empty(link),
                link_text: non_empty(link_text),
                image_url: non_empty(image),
                selection_text: non_empty(sel),
            },
        ),
        TabEventKind::Dismiss => Ok(MenuRequest::Dismiss),
        TabEventKind::Kbd { key, shift } => {
            if key.as_str().is_empty() {
                return Err(owned("kbd event missing key"));
            }
            Ok(MenuRequest::KeyboardShortcut { key, shift })
        },
        TabEventKind::Middleclick { url } => {
            if url.as_str().is_empty() {
                return Err(owned("middleclick event missing url"));
            }
            Ok(MenuRequest::OpenInNewTab { url })
        },
    }
}

/// The marker the init script tags its posted messages with.
pub const MARKER: &'static str = "tab-event";

/// Longest posted message looked at, in bytes: 8 KiB.
pub const MAX_MESSAGE_BYTES: usize = 8192;

/// Why a posted message is not taken as a tab event.
#[derive(Debug, Clone, Copy, PartialEq, Eq, Structural)]
pub enum RejectReason {
    /// Longer than `MAX_MESSAGE_BYTES`; never parsed.
    TooLarge,
    /// Not JSON of the expected shape.
    Malformed,
    /// Not tagged with the marker (someone else's message).
    WrongMarker,
    /// Tagged, but with another token.
    BadToken,
}

/// The marker and token of a posted message that parsed; its event the
/// shell keeps.
#[derive(Debug)]
pub struct Envelope {
    pub bf: String,
    pub token: String,
}

/// The verdict on a posted message of `raw_len` bytes that parsed as
/// `parsed` (`None`: it did not), checked in this order: size, shape,
/// marker, token.
pub open spec fn envelope_verdict(raw_len: nat, parsed: Option<(Seq<char>, Seq<char>)>, expected: Seq<char>) -> Result<(), RejectReason> {
    if raw_len > MAX_MESSAGE_BYTES {
        Err(RejectReason::TooLarge)
    } else {
        match parsed {
            None => Err(RejectReason::Malformed),
            Some((bf, token)) => if bf != MARKER@ {
                Err(RejectReason::WrongMarker)
            } else if token != expected {
                Err(RejectReason::BadToken)
            } else {
                Ok(())
            },
        }
    }
}

/// Check a posted message: its size before anything else, then that it
/// parsed, carries the marker, and carries this launch's token.
pub fn check_envelope(raw_len: usize, parsed: Option<&Envelope>, expected: &str) -> (r: Result<(), RejectReason>)
    ensures
        r == envelope_verdict(
            raw_len as nat,
            match parsed {
                Some(e) => Some((e.bf@, e.token@)),
                None => None,
            },
            expected@,
        ),
{
    if raw_len > MAX_MESSAGE_BYTES {
        return Err(RejectReason::TooLarge);
    }
    match parsed {
        None => Err(RejectReason::Malformed),
        Some(e) => if !str_eq(e.bf.as_str(), MARKER) {
            Err(RejectReason::WrongMarker)
        } else if !str_eq(e.token.as_str(), expected) {
            Err(RejectReason::BadToken)
        } else {
            Ok(())
        },
    }
}

} // verus!
