//! Random secrets, wall-clock time and base64 text: the outside calls behind
//! pairing codes, access tokens, session tokens and encoded payloads.
use vstd::prelude::*;

use base64::Engine;
use rand::TryRng;

use crate::text::{decimal, decimal_chars, string_of, zero_pad, zero_pad_chars};

verus! {

/// The base64 character for the six-bit value `v`: `A`-`Z`, `a`-`z`, `0`-`9`,
/// then `-` and `_` in the URL-safe alphabet or `+` and `/` in the standard one.
pub open spec fn base64_char(v: nat, url_safe: bool) -> char {
    if v < 26 {
        (65 + v) as char
    } else if v < 52 {
        (97 + (v - 26)) as char
    } else if v < 62 {
        (48 + (v - 52)) as char
    } else if v == 62 {
        if url_safe { '-' } else { '+' }
    } else {
        if url_safe { '_' } else { '/' }
    }
}

/// Base64 (RFC 4648): every group of three bytes gives four characters of six
/// bits each; a last group of one or two bytes gives two or three characters,
/// followed by `=` up to four when padding.
pub open spec fn base64_encode(bytes: Seq<u8>, url_safe: bool, pad: bool) -> Seq<char>
    decreases bytes.len(),
{
    if bytes.len() == 0 {
        Seq::empty()
    } else if bytes.len() == 1 {
        let a = bytes[0] as nat;
        seq![base64_char(a / 4, url_safe), base64_char((a % 4) * 16, url_safe)]
            + (if pad { seq!['=', '='] } else { Seq::empty() })
    } else if bytes.len() == 2 {
        let a = bytes[0] as nat;
        let b = bytes[1] as nat;
        seq![
            base64_char(a / 4, url_safe),
            base64_char((a % 4) * 16 + b / 16, url_safe),
            base64_char((b % 16) * 4, url_safe),
        ] + (if pad { seq!['='] } else { Seq::empty() })
    } else {
        let a = bytes[0] as nat;
        let b = bytes[1] as nat;
        let c = bytes[2] as nat;
        seq![
            base64_char(a / 4, url_safe),
            base64_char((a % 4) * 16 + b / 16, url_safe),
            base64_char((b % 16) * 4 + c / 64, url_safe),
            base64_char(c % 64, url_safe),
        ] + base64_encode(bytes.skip(3), url_safe, pad)
    }
}

/// The URL-safe, unpadded base64 text of `bytes` (the `base64` crate's
/// `URL_SAFE_NO_PAD` engine).
pub open spec fn base64_url_no_pad(bytes: Seq<u8>) -> Seq<char> {
    base64_encode(bytes, true, false)
}

/// Inputs short enough for the unpadded encoded length to fit in `usize`.
pub open spec fn base64_unpadded_len_fits(len: nat) -> bool {
    len / 3 * 4 + (if len % 3 == 0 { 0nat } else { len % 3 + 1 }) <= usize::MAX
}

/// `base64::engine::general_purpose::URL_SAFE_NO_PAD.encode`: claimed to return the
/// URL-safe, unpadded base64 text of its input. The crate panics where the
/// encoded length overflows `usize`, which `requires` rules out.
#[verifier::external_body]
fn encode_url_safe_no_pad(bytes: &[u8]) -> (r: String)
    requires
        base64_unpadded_len_fits(bytes.len() as nat),
    ensures
        r@ == base64_url_no_pad(bytes@),
{
    base64::engine::general_purpose::URL_SAFE_NO_PAD.encode(bytes)
}

/// The standard, padded base64 text of `bytes` (the `base64` crate's `STANDARD`
/// engine).
pub open spec fn base64_standard(bytes: Seq<u8>) -> Seq<char> {
    base64_encode(bytes, false, true)
}

/// Inputs short enough for the encoded length to fit in `usize`.
pub open spec fn base64_len_fits(len: nat) -> bool {
    if len % 3 == 0 { len / 3 * 4 <= usize::MAX } else { len / 3 * 4 + 4 <= usize::MAX }
}

/// `base64::engine::general_purpose::STANDARD.encode`: claimed to return the
/// standard, padded base64 text of its input, four characters for every
/// started group of three bytes. The crate panics where that length overflows
/// `usize`, which `requires` rules out.
#[verifier::external_body]
pub(crate) fn encode_standard(bytes: &[u8]) -> (r: String)
    requires
        base64_len_fits(bytes.len() as nat),
    ensures
        r@ == base64_standard(bytes@),
        r@.len() == 4 * ((bytes.len() + 2) / 3),
{
    base64::engine::general_purpose::STANDARD.encode(bytes)
}

/// `rand::rngs::SysRng::try_fill_bytes` on a 4-byte buffer: nothing is claimed of the
/// bytes (they come from the operating system; on failure the buffer stays zero).
#[verifier::external_body]
fn random_bytes_4() -> (r: [u8; 4]) {
    let mut buf = [0u8; 4];
    let mut rng = rand::rngs::SysRng;
    let _ = rng.try_fill_bytes(&mut buf);
    buf
}

/// `rand::rngs::SysRng::try_fill_bytes` on a 32-byte buffer: nothing is claimed of
/// the bytes.
#[verifier::external_body]
fn random_bytes_32() -> (r: [u8; 32]) {
    let mut buf = [0u8; 32];
    let mut rng = rand::rngs::SysRng;
    let _ = rng.try_fill_bytes(&mut buf);
    buf
}

/// `SystemTime::now().duration_since(UNIX_EPOCH)` in whole seconds (zero before
/// the epoch): nothing is claimed of the time read.
#[verifier::external_body]
pub fn now_secs() -> (r: u64) {
    std::time::SystemTime::now().duration_since(std::time::UNIX_EPOCH).unwrap_or_default().as_secs()
}

/// The little-endian value of four bytes (`u32::from_le_bytes`).
pub open spec fn le_u32(b: Seq<u8>) -> nat {
    b[0] as nat + 256 * b[1] as nat + 65536 * b[2] as nat + 16777216 * b[3] as nat
}

/// The six-digit pairing code for a random value (`format!("{:06}", v % 1_000_000)`).
pub open spec fn pairing_code_text(v: nat) -> Seq<char> {
    zero_pad(decimal(v % 1_000_000), 6)
}

/// The pairing code drawn from four random bytes.
pub fn code_from_bytes(b: [u8; 4]) -> (r: String)
    ensures
        r@ == pairing_code_text(le_u32(b@)),
{
    let v: u64 = b[0] as u64 + 256 * (b[1] as u64) + 65536 * (b[2] as u64) + 16777216 * (
    b[3] as u64);
    let d = decimal_chars(v % 1_000_000);
    let padded = zero_pad_chars(d.as_slice(), 6);
    string_of(padded.as_slice())
}

/// A fresh random six-digit pairing code.
pub fn generate_code() -> (r: String)
    ensures
        exists|v: nat| r@ == pairing_code_text(v),
{
    let b = random_bytes_4();
    code_from_bytes(b)
}

/// The access token drawn from 32 random bytes.
pub fn token_from_bytes(b: [u8; 32]) -> (r: String)
    ensures
        r@ == base64_url_no_pad(b@),
{
    encode_url_safe_no_pad(&b)
}

/// A fresh random access token: the base64 text of 32 random bytes.
pub fn generate_token() -> (r: String)
    ensures
        exists|b: Seq<u8>| b.len() == 32 && r@ == base64_url_no_pad(b),
{
    let b = random_bytes_32();
    token_from_bytes(b)
}

} // verus!
