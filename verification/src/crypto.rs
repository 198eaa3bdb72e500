//! Hashing, encoding and token helpers: SHA-256 (sha2), hexadecimal (hex),
//! base64 (base64), constant-time comparison (subtle) and random bytes from
//! the operating system (argon2's re-export of `rand_core::OsRng`).
use vstd::prelude::*;

use argon2::password_hash::rand_core::RngCore as _;
use base64::Engine as _;
use rand::Rng as _;
use sha2::Digest as _;
use subtle::ConstantTimeEq as _;

verus! {

/// The SHA-256 digest of `data`, as computed by the sha2 crate.
pub uninterp spec fn sha256_digest(data: Seq<u8>) -> Seq<u8>;

/// The unpadded URL-safe base64 text (RFC 4648 §5) of `data`, as produced by
/// the base64 crate's `URL_SAFE_NO_PAD` engine.
pub uninterp spec fn base64_url_nopad(data: Seq<u8>) -> Seq<char>;

/// What the base64 crate's `STANDARD` engine decodes `text` to, or `None`
/// when it refuses the input.
pub uninterp spec fn base64_standard_decode(text: Seq<u8>) -> Option<Seq<u8>>;

/// The lower-case hexadecimal digit for `n` (`0 <= n < 16`).
pub open spec fn hex_char(n: int) -> char {
    if n < 10 {
        (n + 48) as char
    } else {
        (n + 87) as char
    }
}

/// Lower-case hexadecimal text of `data`, two digits per byte, high nibble first.
pub open spec fn hex_lower(data: Seq<u8>) -> Seq<char> {
    Seq::new(
        2 * data.len(),
        |i: int|
            if i % 2 == 0 {
                hex_char(data[i / 2] as int / 16)
            } else {
                hex_char(data[i / 2] as int % 16)
            },
    )
}

/// The value of a hexadecimal digit byte, either case, or `None`.
pub open spec fn hex_value(b: u8) -> Option<int> {
    if 48 <= b <= 57 {
        Some(b - 48)
    } else if 65 <= b <= 70 {
        Some(b - 55)
    } else if 97 <= b <= 102 {
        Some(b - 87)
    } else {
        None
    }
}

/// What `hex::decode` gives for the bytes `text`: `None` for an odd length or
/// a byte that is not a hexadecimal digit, else one byte per digit pair.
pub open spec fn hex_decode_spec(text: Seq<u8>) -> Option<Seq<u8>> {
    if text.len() % 2 != 0 || exists|i: int| 0 <= i < text.len() && (#[trigger] hex_value(text[i])) is None {
        None
    } else {
        Some(
            Seq::new(
                text.len() / 2,
                |i: int| (hex_value(text[2 * i])->0 * 16 + hex_value(text[2 * i + 1])->0) as u8,
            ),
        )
    }
}

/// The bytes of `s` in UTF-8.
pub open spec fn utf8(s: Seq<char>) -> Seq<u8> {
    vstd::utf8::encode_utf8(s)
}

/// Lower-case hex of the SHA-256 digest of the UTF-8 bytes of `s`.
pub open spec fn sha256_hex_spec(s: Seq<char>) -> Seq<char> {
    hex_lower(sha256_digest(utf8(s)))
}

/// `sha2::Sha256::digest`: the 32-byte SHA-256 digest of `data`.
#[verifier::external_body]
pub(crate) fn sha256(data: &[u8]) -> (r: Vec<u8>)
    ensures
        r@ == sha256_digest(data@),
        r@.len() == 32,
{
    sha2::Sha256::digest(data).to_vec()
}

/// `hex::encode`: lower-case hexadecimal text, two digits per byte.
#[verifier::external_body]
pub(crate) fn hex_encode(data: &[u8]) -> (r: String)
    ensures
        r@ == hex_lower(data@),
{
    hex::encode(data)
}

/// `hex::decode`: the bytes written by an even number of hexadecimal digits
/// (either case); refuses odd lengths and other characters.
#[verifier::external_body]
pub(crate) fn hex_decode(text: &str) -> (r: Option<Vec<u8>>)
    ensures
        r matches Some(v) ==> hex_decode_spec(utf8(text@)) == Some(v@),
        r is None ==> hex_decode_spec(utf8(text@)) is None,
{
    hex::decode(text).ok()
}

/// `<[u8] as subtle::ConstantTimeEq>::ct_eq(..).unwrap_u8() == 1`: whether the
/// two byte strings are equal, compared without an early exit on content.
#[verifier::external_body]
pub(crate) fn ct_eq_bytes(a: &[u8], b: &[u8]) -> (r: bool)
    ensures
        r == (a@ == b@),
{
    a.ct_eq(b).unwrap_u8() == 1
}

/// `base64::engine::general_purpose::URL_SAFE_NO_PAD.encode`; the text has
/// `ceil(4n/3)` characters for `n` bytes. The crate panics when that length
/// overflows `usize`, so such inputs are not admitted.
#[verifier::external_body]
pub(crate) fn base64_url_encode(data: &[u8]) -> (r: String)
    requires
        data@.len() <= usize::MAX / 4,
    ensures
        r@ == base64_url_nopad(data@),
        r@.len() == (4 * data@.len() + 2) / 3,
{
    base64::engine::general_purpose::URL_SAFE_NO_PAD.encode(data)
}

/// `base64::engine::general_purpose::STANDARD.decode`; a refusal comes with
/// the text of the crate's `DecodeError`.
#[verifier::external_body]
pub(crate) fn base64_decode(text: &[u8]) -> (r: Result<Vec<u8>, String>)
    ensures
        r matches Ok(v) ==> base64_standard_decode(text@) == Some(v@),
        r is Err ==> base64_standard_decode(text@) is None,
{
    match base64::engine::general_purpose::STANDARD.decode(text) {
        Ok(v) => Ok(v),
        Err(e) => Err(e.to_string()),
    }
}

/// `OsRng.fill_bytes` on a fresh buffer of `n` bytes: `n` bytes from the
/// operating system's random source. Nothing is said of their values.
#[verifier::external_body]
pub(crate) fn random_bytes(n: usize) -> (r: Vec<u8>)
    ensures
        r@.len() == n,
{
    let mut buf = vec![0u8; n];
    argon2::password_hash::rand_core::OsRng.fill_bytes(&mut buf);
    buf
}

/// `rand::rng().fill(..)` on a fresh buffer of `n` bytes: `n` bytes from the
/// thread-local generator of the rand crate. Nothing is said of their values.
#[verifier::external_body]
pub(crate) fn thread_random_bytes(n: usize) -> (r: Vec<u8>)
    ensures
        r@.len() == n,
{
    let mut buf = vec![0u8; n];
    rand::rng().fill(&mut buf[..]);
    buf
}

/// Appends the bytes of `src` to `dst`.
pub fn extend_bytes(dst: &mut Vec<u8>, src: &[u8])
    ensures
        final(dst)@ == old(dst)@ + src@,
{
    let n = src.len();
    for i in 0..n
        invariant
            n == src@.len(),
            dst@ == old(dst)@ + src@.subrange(0, i as int),
    {
        dst.push(src[i]);
        assert(src@.subrange(0, i + 1) == src@.subrange(0, i as int).push(src@[i as int]));
    }
    assert(src@.subrange(0, n as int) == src@);
}

/// Lower-case hex of the SHA-256 digest of the UTF-8 bytes of `value`; tokens,
/// share passwords and invites are stored only in this form.
pub fn sha256_hex(value: &str) -> (r: String)
    ensures
        r@ == sha256_hex_spec(value@),
        r@.len() == 64,
{
    let d = sha256(value.as_bytes());
    hex_encode(d.as_slice())
}

/// A fresh URL-safe token: `n` random bytes in unpadded base64url.
pub fn random_token(n: usize) -> (r: String)
    requires
        n <= usize::MAX / 4,
    ensures
        exists|b: Seq<u8>| b.len() == n && r@ == #[trigger] base64_url_nopad(b),
        r@.len() == (4 * n + 2) / 3,
{
    let buf = random_bytes(n);
    base64_url_encode(buf.as_slice())
}

/// The token mailed for email verification and password resets: 32 random
/// bytes, 43 characters of base64url.
pub fn random_url_token() -> (r: String)
    ensures
        exists|b: Seq<u8>| b.len() == 32 && r@ == #[trigger] base64_url_nopad(b),
        r@.len() == 43,
{
    random_token(32)
}

/// The secret part of a public share link: 24 random bytes, 32 characters.
pub fn random_share_token() -> (r: String)
    ensures
        exists|b: Seq<u8>| b.len() == 24 && r@ == #[trigger] base64_url_nopad(b),
        r@.len() == 32,
{
    random_token(24)
}

/// The secret part of an organization invite: 32 random bytes, 43 characters.
pub fn random_invite_token() -> (r: String)
    ensures
        exists|b: Seq<u8>| b.len() == 32 && r@ == #[trigger] base64_url_nopad(b),
        r@.len() == 43,
{
    random_token(32)
}

/// The OAuth `state` value: 16 random bytes as 32 lower-case hex digits.
pub fn random_state() -> (r: String)
    ensures
        exists|b: Seq<u8>| b.len() == 16 && r@ == #[trigger] hex_lower(b),
        r@.len() == 32,
{
    let buf = thread_random_bytes(16);
    hex_encode(buf.as_slice())
}

/// The value of a lower-case hexadecimal digit character.
pub open spec fn hex_digit_value(c: char) -> int {
    if c <= '9' {
        c as int - 48
    } else {
        c as int - 87
    }
}

/// Hex text: two characters per byte, each a digit `0`-`9` or `a`-`f`, the
/// pair reading back as the byte (high nibble first).
pub proof fn lemma_hex_lower_reads_back(data: Seq<u8>)
    ensures
        hex_lower(data).len() == 2 * data.len(),
        forall|i: int|
            0 <= i < hex_lower(data).len() ==> ('0' <= #[trigger] hex_lower(data)[i] <= '9' || 'a' <= hex_lower(data)[i]
                <= 'f'),
        forall|i: int|
            0 <= i < data.len() ==> hex_digit_value(hex_lower(data)[2 * i]) * 16 + hex_digit_value(hex_lower(data)[2 * i + 1])
                == #[trigger] data[i],
{
    let h = hex_lower(data);
    assert forall|i: int| 0 <= i < data.len() implies hex_digit_value(h[2 * i]) * 16 + hex_digit_value(h[2 * i + 1])
        == #[trigger] data[i] by {
        assert((2 * i) % 2 == 0 && (2 * i) / 2 == i) by (nonlinear_arith);
        assert((2 * i + 1) % 2 == 1 && (2 * i + 1) / 2 == i) by (nonlinear_arith);
        let b = data[i] as int;
        assert(b / 16 * 16 + b % 16 == b) by (nonlinear_arith);
        assert(0 <= b / 16 < 16 && 0 <= b % 16 < 16) by (nonlinear_arith)
            requires
                0 <= b < 256,
        ;
    }
    assert forall|i: int| 0 <= i < h.len() implies ('0' <= #[trigger] h[i] <= '9' || 'a' <= h[i] <= 'f') by {
        let b = data[i / 2] as int;
        assert(0 <= b / 16 < 16 && 0 <= b % 16 < 16) by (nonlinear_arith)
            requires
                0 <= b < 256,
        ;
        assert(0 <= i / 2 < data.len()) by (nonlinear_arith)
            requires
                0 <= i < 2 * data.len(),
        ;
    }
}

} // verus!
