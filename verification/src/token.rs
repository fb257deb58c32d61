//! Per-session control-channel token.
//!
//! One random token per app launch, hex encoded and written to a file under
//! the app data directory. The MCP bridge reads that file and sends the
//! token as the first message on the named pipe. The pipe server refuses
//! every request that does not carry a byte-for-byte match, compared in
//! constant time so a partial guess can't be timed.

use vstd::prelude::*;
use vstd::string::StringSliceAdditionalSpecFns;

use crate::text::{byte_hex_lower, hex_digit_lower, join_path, owned, path_join, push_char};

verus! {

/// Random bytes in a token: 256 bits, hex encoded to 64 ASCII characters.
pub const TOKEN_BYTES: usize = 32;

/// Lowercase hex encoding, two digits per byte.
pub open spec fn hex_of(bs: Seq<u8>) -> Seq<char>
    decreases bs.len(),
{
    if bs.len() == 0 {
        Seq::empty()
    } else {
        hex_of(bs.drop_last()) + byte_hex_lower(bs.last())
    }
}

/// A lowercase hex digit.
pub open spec fn is_hex_digit(c: char) -> bool {
    ('0' <= c && c <= '9') || ('a' <= c && c <= 'f')
}

/// Hex encoding doubles the length and yields only hex digits.
pub proof fn lemma_hex_of_shape(bs: Seq<u8>)
    ensures
        hex_of(bs).len() == 2 * bs.len(),
        forall|i: int| 0 <= i < hex_of(bs).len() ==> is_hex_digit(#[trigger] hex_of(bs)[i]),
    decreases bs.len(),
{
    if bs.len() > 0 {
        lemma_hex_of_shape(bs.drop_last());
        let b = bs.last();
        let prev = hex_of(bs.drop_last());
        assert forall|i: int| 0 <= i < hex_of(bs).len() implies is_hex_digit(#[trigger] hex_of(bs)[i]) by {
            if i >= prev.len() {
                let d = if i == prev.len() {
                    (b / 16) as nat
                } else {
                    (b % 16) as nat
                };
                assert(hex_of(bs)[i] == crate::text::hex_lower(d));
            }
        }
    }
}

/// Lowercase hex of `bytes`.
pub fn to_hex(bytes: &[u8]) -> (r: String)
    ensures
        r@ == hex_of(bytes@),
{
    let mut out = String::new();
    let mut i: usize = 0;
    assert(bytes@.take(0) =~= Seq::<u8>::empty());
    while i < bytes.len()
        invariant
            0 <= i <= bytes@.len(),
            out@ == hex_of(bytes@.take(i as int)),
        decreases bytes.len() - i,
    {
        let b = bytes[i];
        assert(b >> 4 == b / 16 && b & 0x0f == b % 16) by (bit_vector);
        push_char(&mut out, hex_digit_lower(b >> 4));
        push_char(&mut out, hex_digit_lower(b & 0x0f));
        assert(bytes@.take(i + 1).drop_last() =~= bytes@.take(i as int));
        assert(out@ =~= hex_of(bytes@.take(i + 1)));
        i += 1;
    }
    assert(bytes@.take(bytes@.len() as int) =~= bytes@);
    out
}

/// `getrandom::getrandom` into a 32-byte buffer: the bytes when the OS
/// CSPRNG delivered them, `None` when it is unavailable.
#[verifier::external_body]
fn os_random_32() -> (r: Option<Vec<u8>>)
    ensures
        r matches Some(v) ==> v@.len() == TOKEN_BYTES,
{
    let mut buf = [0u8; TOKEN_BYTES];
    match getrandom::getrandom(&mut buf) {
        Ok(()) => Some(buf.to_vec()),
        Err(_) => None,
    }
}

/// The per-launch control-channel token.
#[derive(Debug, PartialEq, Eq)]
pub struct SessionToken(String);

impl View for SessionToken {
    type V = Seq<char>;

    closed spec fn view(&self) -> Seq<char> {
        self.0@
    }
}

impl SessionToken {
    /// A fresh random token from the OS CSPRNG: 64 lowercase hex digits
    /// (`None` when the OS RNG is unavailable).
    pub fn generate() -> (r: Option<Self>)
        ensures
            r matches Some(t) ==> t@.len() == 2 * TOKEN_BYTES && forall|i: int|
                0 <= i < t@.len() ==> is_hex_digit(#[trigger] t@[i]),
    {
        match os_random_32() {
            Some(bytes) => {
                let s = to_hex(&bytes);
                proof {
                    lemma_hex_of_shape(bytes@);
                }
                Some(SessionToken(s))
            },
            None => None,
        }
    }

    /// A token with the given text.
    pub fn from_str_for_test(s: &str) -> (t: Self)
        ensures
            t@ == s@,
    {
        SessionToken(owned(s))
    }

    pub fn as_str(&self) -> (r: &str)
        ensures
            r@ == self@,
    {
        self.0.as_str()
    }

    /// Constant-time comparison against a caller-supplied string. Always
    /// walks the full length of `self` regardless of where a mismatch
    /// occurs, so a bad guess can't be timed byte-by-byte.
    pub fn matches(&self, candidate: &str) -> (b: bool)
        ensures
            b == (self@ == candidate@),
    {
        let a = self.0.as_str().as_bytes();
        let b = candidate.as_bytes();
        proof {
            vstd::utf8::encode_utf8_decode_utf8(self@);
            vstd::utf8::encode_utf8_decode_utf8(candidate@);
        }
        if a.len() != b.len() {
            // Still touch every byte of `a` so the early return doesn't
            // leak more than the length check already reveals.
            let mut acc: u8 = 1;
            let mut k: usize = 0;
            while k < a.len()
                invariant
                    0 <= k <= a@.len(),
                decreases a.len() - k,
            {
                acc = acc | a[k];
                k += 1;
            }
            return false;
        }
        let mut diff: u8 = 0;
        let mut i: usize = 0;
        while i < a.len()
            invariant
                a@.len() == b@.len(),
                0 <= i <= a@.len(),
                (diff == 0) == (forall|j: int| 0 <= j < i ==> a@[j] == b@[j]),
            decreases a.len() - i,
        {
            let x = a[i];
            let y = b[i];
            let d = diff;
            diff = diff | (x ^ y);
            assert((d | (x ^ y)) == 0 <==> (d == 0 && x == y)) by (bit_vector);
            i += 1;
        }
        assert((diff == 0) ==> a@ =~= b@);
        diff == 0
    }
}

/// `<app_data>/control`.
pub fn control_dir(app_data: &str) -> (r: String)
    ensures
        r@ == path_join(app_data@, "control"@),
{
    join_path(app_data, "control")
}

/// `<app_data>/control/token`, where the token file is written.
pub fn token_file_path(app_data: &str) -> (r: String)
    ensures
        r@ == path_join(path_join(app_data@, "control"@), "token"@),
{
    let dir = control_dir(app_data);
    join_path(dir.as_str(), "token")
}

} // verus!
