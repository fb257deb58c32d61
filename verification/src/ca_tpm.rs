//! The byte-level parts of the root CA's key handling: which provider
//! holds the key, reading the public point out of a CNG ECC public blob,
//! and DER-encoding the raw ECDSA signatures CNG returns.
//!
//! The CNG calls themselves (creating, opening and signing with a
//! persisted, non-exportable key) are Windows FFI and stay in the shell.

use vstd::prelude::*;

use crate::text::{hex_fixed, owned, push_str, u64_to_hex_fixed, chars_of};

verus! {

/// Which CNG provider holds the key.
#[derive(Debug, Clone, Copy, PartialEq, Eq, Structural)]
pub enum KeyBackend {
    /// The Microsoft Platform Crypto Provider: generated and held by the TPM.
    Tpm,
    /// The Microsoft Software Key Storage Provider: no TPM was available.
    Software,
}

/// The name of a backend, as recorded next to the CA.
pub open spec fn backend_name(b: KeyBackend) -> Seq<char> {
    match b {
        KeyBackend::Tpm => "tpm"@,
        KeyBackend::Software => "software"@,
    }
}

impl KeyBackend {
    /// The backend's name.
    pub fn as_str(self) -> (r: &'static str)
        ensures
            r@ == backend_name(self),
    {
        match self {
            KeyBackend::Tpm => "tpm",
            KeyBackend::Software => "software",
        }
    }
}

// ---------------------------------------------------------------------
// DER encoding of ECDSA signatures
// ---------------------------------------------------------------------

/// `m` without leading zero bytes, keeping at least one byte.
pub open spec fn stripped(m: Seq<u8>) -> Seq<u8>
    decreases m.len(),
{
    if m.len() > 1 && m[0] == 0 {
        stripped(m.drop_first())
    } else {
        m
    }
}

/// The content octets of the DER INTEGER for the unsigned big-endian
/// magnitude `m`: minimal, and prefixed with a zero byte when its top bit
/// would otherwise read as a sign.
pub open spec fn der_int_content(m: Seq<u8>) -> Seq<u8> {
    let s = stripped(m);
    let c = if s.len() == 0 {
        seq![0u8]
    } else {
        s
    };
    if c[0] >= 128 {
        seq![0u8] + c
    } else {
        c
    }
}

/// `n` in big-endian bytes, without leading zeros (empty for 0).
pub open spec fn be_bytes(n: nat) -> Seq<u8>
    decreases n,
{
    if n == 0 {
        Seq::empty()
    } else {
        be_bytes(n / 256).push((n % 256) as u8)
    }
}

/// A DER length: short form below 128, else long form.
pub open spec fn der_len(n: nat) -> Seq<u8> {
    if n < 128 {
        seq![n as u8]
    } else {
        seq![(128 + be_bytes(n).len()) as u8] + be_bytes(n)
    }
}

/// The DER INTEGER for the magnitude `m`.
pub open spec fn der_int(m: Seq<u8>) -> Seq<u8> {
    seq![2u8] + der_len(der_int_content(m).len()) + der_int_content(m)
}

/// The DER `SEQUENCE { INTEGER r, INTEGER s }` of a raw `r || s`
/// signature with 32-byte halves.
pub open spec fn der_signature(raw: Seq<u8>) -> Seq<u8> {
    let body = der_int(raw.subrange(0, 32)) + der_int(raw.subrange(32, 64));
    seq![0x30u8] + der_len(body.len()) + body
}

proof fn lemma_be_bytes_len_bound(n: nat, k: nat)
    requires
        n < pow256(k),
    ensures
        be_bytes(n).len() <= k,
    decreases k,
{
    if n > 0 && k > 0 {
        assert(n / 256 < pow256((k - 1) as nat));
        lemma_be_bytes_len_bound(n / 256, (k - 1) as nat);
    }
}

/// `256^k`.
pub open spec fn pow256(k: nat) -> nat
    decreases k,
{
    if k == 0 {
        1
    } else {
        256 * pow256((k - 1) as nat)
    }
}

/// Append the DER length `len` to `out`.
fn push_der_len(out: &mut Vec<u8>, len: usize)
    ensures
        final(out)@ == old(out)@ + der_len(len as nat),
{
    if len < 128 {
        out.push(len as u8);
        assert(out@ =~= old(out)@ + der_len(len as nat));
        return ;
    }
    let mut len_bytes: Vec<u8> = Vec::new();
    let mut l = len;
    proof {
        reveal_with_fuel(pow256, 9);
        assert(pow256(8) == 0x1_0000_0000_0000_0000);
        lemma_be_bytes_len_bound(len as nat, 8);
    }
    while l > 0
        invariant
            be_bytes(len as nat) == be_bytes(l as nat) + len_bytes@,
        decreases l,
    {
        let ghost before = len_bytes@;
        len_bytes.insert(0, (l % 256) as u8);
        assert(be_bytes(l as nat) == be_bytes((l / 256) as nat).push((l % 256) as u8));
        assert(be_bytes(l as nat) + before =~= be_bytes((l / 256) as nat) + len_bytes@);
        l = l / 256;
    }
    assert(be_bytes(0) + len_bytes@ =~= len_bytes@);
    let k = len_bytes.len();
    assert(k <= 8);
    out.push((128 + k) as u8);
    let ghost mid = out@;
    let mut i: usize = 0;
    while i < len_bytes.len()
        invariant
            0 <= i <= len_bytes@.len(),
            out@ == mid + len_bytes@.take(i as int),
        decreases len_bytes.len() - i,
    {
        out.push(len_bytes[i]);
        assert(out@ =~= mid + len_bytes@.take(i + 1));
        i += 1;
    }
    assert(len_bytes@.take(len_bytes@.len() as int) =~= len_bytes@);
    assert(out@ =~= old(out)@ + der_len(len as nat));
}

/// Append `bs` to `out`.
fn append(out: &mut Vec<u8>, bs: &[u8])
    ensures
        final(out)@ == old(out)@ + bs@,
{
    let ghost start = out@;
    let mut i: usize = 0;
    while i < bs.len()
        invariant
            0 <= i <= bs@.len(),
            out@ == start + bs@.take(i as int),
        decreases bs.len() - i,
    {
        out.push(bs[i]);
        assert(out@ =~= start + bs@.take(i + 1));
        i += 1;
    }
    assert(bs@.take(bs@.len() as int) =~= bs@);
}

/// The DER INTEGER for the unsigned big-endian magnitude `m[from..to]`.
fn der_uint(m: &[u8], from: usize, to: usize) -> (r: Vec<u8>)
    requires
        from <= to <= m@.len(),
    ensures
        r@ == der_int(m@.subrange(from as int, to as int)),
{
    let ghost whole = m@.subrange(from as int, to as int);
    let mut start = from;
    while to - start > 1 && m[start] == 0
        invariant
            from <= start <= to <= m@.len(),
            stripped(whole) == stripped(m@.subrange(start as int, to as int)),
        decreases to - start,
    {
        assert(m@.subrange(start as int, to as int).drop_first() =~= m@.subrange(start + 1, to as int));
        start += 1;
    }
    let ghost rest = m@.subrange(start as int, to as int);
    assert(stripped(whole) == rest);
    let mut content: Vec<u8> = Vec::new();
    let mut i = start;
    while i < to
        invariant
            start <= i <= to <= m@.len(),
            content@ == m@.subrange(start as int, i as int),
        decreases to - i,
    {
        content.push(m[i]);
        assert(content@ =~= m@.subrange(start as int, i + 1));
        i += 1;
    }
    if content.len() == 0 {
        content.push(0);
        assert(content@ =~= seq![0u8]);
    }
    if content[0] >= 128 {
        let ghost c = content@;
        content.insert(0, 0);
        assert(content@ =~= seq![0u8] + c);
    }
    assert(content@ == der_int_content(whole));
    let mut out: Vec<u8> = Vec::new();
    out.push(2);
    push_der_len(&mut out, content.len());
    append(&mut out, &content);
    assert(out@ =~= der_int(whole));
    out
}

/// Encode a raw `r || s` ECDSA P-256 signature as the DER
/// `SEQUENCE { INTEGER r, INTEGER s }` X.509 expects.
pub fn der_encode_ecdsa_sig(raw: &[u8; 64]) -> (r: Vec<u8>)
    ensures
        r@ == der_signature(raw@),
{
    let r = der_uint(raw, 0, 32);
    let s = der_uint(raw, 32, 64);
    let mut body: Vec<u8> = Vec::new();
    append(&mut body, &r);
    append(&mut body, &s);
    let mut out: Vec<u8> = Vec::new();
    out.push(0x30);
    push_der_len(&mut out, body.len());
    append(&mut out, &body);
    assert(out@ =~= der_signature(raw@));
    out
}

// ---------------------------------------------------------------------
// CNG ECC public key blobs
// ---------------------------------------------------------------------

/// Magic of a `BCRYPT_ECCKEY_BLOB` holding a P-256 public key (`ECS1`).
pub const P256_PUBLIC_MAGIC: u32 = 0x31534345;

/// Why an exported ECC public key blob was refused.
#[derive(Debug, Clone, Copy, PartialEq, Eq, Structural)]
pub enum BlobError {
    /// Shorter than its 8-byte header.
    TooShort,
    /// The header's magic is not P-256's.
    BadMagic,
    /// The header's field size is not 32.
    BadFieldSize,
    /// Shorter than the header's field size promises.
    Truncated,
}

/// The little-endian `u32` at `i`.
pub open spec fn le_u32(b: Seq<u8>, i: int) -> int {
    b[i] as int + 256 * (b[i + 1] as int) + 65536 * (b[i + 2] as int) + 16777216 * (b[i + 3] as int)
}

/// The uncompressed point `0x04 || X || Y` of a `BCRYPT_ECCKEY_BLOB` (a
/// magic and a field size, little-endian as on Windows targets, then X
/// and Y), or why it is refused.
pub open spec fn blob_point(b: Seq<u8>) -> Result<Seq<u8>, BlobError> {
    if b.len() < 8 {
        Err(BlobError::TooShort)
    } else if le_u32(b, 0) != P256_PUBLIC_MAGIC {
        Err(BlobError::BadMagic)
    } else if le_u32(b, 4) != 32 {
        Err(BlobError::BadFieldSize)
    } else if b.len() < 72 {
        Err(BlobError::Truncated)
    } else {
        Ok(seq![4u8] + b.subrange(8, 72))
    }
}

/// The little-endian `u32` at `i`.
fn read_u32_le(b: &[u8], i: usize) -> (r: u32)
    requires
        i + 4 <= b@.len(),
    ensures
        r as int == le_u32(b@, i as int),
{
    (b[i] as u32) + 256 * (b[i + 1] as u32) + 65536 * (b[i + 2] as u32) + 16777216 * (b[i + 3] as u32)
}

/// Read the P-256 public point out of an exported ECC public key blob.
pub fn ecc_blob_point(blob: &[u8]) -> (r: Result<[u8; 65], BlobError>)
    ensures
        match r {
            Ok(p) => blob_point(blob@) == Ok::<Seq<u8>, BlobError>(p@),
            Err(e) => blob_point(blob@) == Err::<Seq<u8>, BlobError>(e),
        },
{
    if blob.len() < 8 {
        return Err(BlobError::TooShort);
    }
    if read_u32_le(blob, 0) != P256_PUBLIC_MAGIC {
        return Err(BlobError::BadMagic);
    }
    if read_u32_le(blob, 4) != 32 {
        return Err(BlobError::BadFieldSize);
    }
    if blob.len() < 72 {
        return Err(BlobError::Truncated);
    }
    let mut point = [0u8; 65];
    point[0] = 4;
    let mut i: usize = 0;
    while i < 64
        invariant
            0 <= i <= 64,
            blob@.len() >= 72,
            point@.len() == 65,
            point@[0] == 4,
            forall|j: int| 0 <= j < i ==> #[trigger] point@[1 + j] == blob@[8 + j],
        decreases 64 - i,
    {
        point[1 + i] = blob[8 + i];
        i += 1;
    }
    assert forall|k: int| 0 <= k < 65 implies point@[k] == (seq![4u8] + blob@.subrange(8, 72))[k] by {
        if k > 0 {
            assert(point@[1 + (k - 1)] == blob@[8 + (k - 1)]);
        }
    }
    assert(point@ =~= seq![4u8] + blob@.subrange(8, 72));
    Ok(point)
}

// ---------------------------------------------------------------------
// Strings for the Windows API
// ---------------------------------------------------------------------

/// The UTF-16 code units of one character.
pub open spec fn utf16_units(c: char) -> Seq<u16> {
    let v = (c as u32) as int;
    if v < 0x10000 {
        seq![v as u16]
    } else {
        seq![(0xD800 + (v - 0x10000) / 1024) as u16, (0xDC00 + (v - 0x10000) % 1024) as u16]
    }
}

/// The UTF-16 encoding of `s`.
pub open spec fn utf16(s: Seq<char>) -> Seq<u16>
    decreases s.len(),
{
    if s.len() == 0 {
        Seq::empty()
    } else {
        utf16(s.drop_last()) + utf16_units(s.last())
    }
}

/// `s` as a NUL-terminated UTF-16 string.
pub fn wide(s: &str) -> (r: Vec<u16>)
    ensures
        r@ == utf16(s@).push(0u16),
{
    let cs = chars_of(s);
    let mut out: Vec<u16> = Vec::new();
    let mut i: usize = 0;
    while i < cs.len()
        invariant
            0 <= i <= cs@.len(),
            cs@ == s@,
            out@ == utf16(cs@.take(i as int)),
        decreases cs.len() - i,
    {
        let c = cs[i];
        let v = c as u32;
        assert(cs@.take(i + 1).drop_last() =~= cs@.take(i as int));
        assert(cs@.take(i + 1).last() == c);
        let ghost before = out@;
        if v < 0x10000 {
            out.push(v as u16);
            assert(out@ =~= before + utf16_units(c));
        } else {
            let w = v - 0x10000;
            assert(v <= 0x10FFFF) by {
                vstd::utf8::char_is_scalar(c);
            }
            out.push((0xD800 + w / 1024) as u16);
            out.push((0xDC00 + w % 1024) as u16);
            assert(out@ =~= before + utf16_units(c));
        }
        assert(out@ =~= utf16(cs@.take(i + 1)));
        i += 1;
    }
    assert(cs@.take(cs@.len() as int) =~= cs@);
    out.push(0);
    out
}

/// `0x` and the eight lowercase hex digits of an HRESULT's bits.
pub open spec fn hresult_text(hr: i32) -> Seq<char> {
    "0x"@ + hex_fixed((hr as u32) as nat, 8)
}

/// An HRESULT as `0x` and eight lowercase hex digits.
pub fn hresult_str(hr: i32) -> (r: String)
    ensures
        r@ == hresult_text(hr),
{
    let mut out = owned("0x");
    let digits = u64_to_hex_fixed((hr as u32) as u64, 8);
    push_str(&mut out, digits.as_str());
    out
}

} // verus!
