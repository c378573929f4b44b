//! The cryptographic and text primitives the decoder is built on.
//!
//! Nothing in this module is proved. Each function hands its arguments to a
//! routine of another crate or of the standard library, and its contract
//! records what that routine is relied on to return. Where the result is a
//! long computation it is given a name here, a spec function without a body,
//! so that the rest of the crate can say exactly which bytes it expects.

use vstd::prelude::*;
use crate::util::be_value;
use bytes::Buf;
use crypto::digest::Digest;
use crypto::mac::Mac;

verus! {

/// The SHA-512 digest of `data`.
pub uninterp spec fn sha512(data: Seq<u8>) -> Seq<u8>;

/// The HMAC-SHA-256 code of `data` under `key`.
pub uninterp spec fn hmac_sha256(key: Seq<u8>, data: Seq<u8>) -> Seq<u8>;

/// The pseudorandom key that HKDF-Extract over SHA-256 draws from the input
/// keying material `ikm` and `salt`.
pub uninterp spec fn hkdf_extract_sha256(salt: Seq<u8>, ikm: Seq<u8>) -> Seq<u8>;

/// The `len` bytes of output keying material that HKDF-Expand over SHA-256
/// gives for the pseudorandom key `prk` and the context `info`.
pub uninterp spec fn hkdf_expand_sha256(prk: Seq<u8>, info: Seq<u8>, len: nat) -> Seq<u8>;

/// The first `len` bytes of the AES-128 counter-mode keystream for `key`,
/// with the counter block starting at `iv`.
pub uninterp spec fn aes128_ctr_keystream(key: Seq<u8>, iv: Seq<u8>, len: nat) -> Seq<u8>;

/// `data` with each byte combined with the byte of `pad` at the same place
/// by exclusive or.
pub open spec fn xor_bytes(data: Seq<u8>, pad: Seq<u8>) -> Seq<u8> {
    Seq::new(data.len(), |i: int| data[i] ^ pad[i])
}

/// What AES-128 in counter mode makes of `data`: the same in both
/// directions, since the keystream depends on `key` and `iv` alone.
pub open spec fn aes128_ctr(key: Seq<u8>, iv: Seq<u8>, data: Seq<u8>) -> Seq<u8> {
    xor_bytes(data, aes128_ctr_keystream(key, iv, data.len()))
}

/// Whether `c` has the Unicode property White_Space.
pub open spec fn white_space(c: char) -> bool {
    let p = c as u32;
    ||| 0x09 <= p <= 0x0d
    ||| p == 0x20
    ||| p == 0x85
    ||| p == 0xa0
    ||| p == 0x1680
    ||| 0x2000 <= p <= 0x200a
    ||| p == 0x2028
    ||| p == 0x2029
    ||| p == 0x202f
    ||| p == 0x205f
    ||| p == 0x3000
}

/// `s` without its leading white space.
pub open spec fn trimmed_start(s: Seq<char>) -> Seq<char>
    decreases s.len(),
{
    if s.len() > 0 && white_space(s.first()) {
        trimmed_start(s.drop_first())
    } else {
        s
    }
}

/// `s` without its trailing white space.
pub open spec fn trimmed_end(s: Seq<char>) -> Seq<char>
    decreases s.len(),
{
    if s.len() > 0 && white_space(s.last()) {
        trimmed_end(s.drop_last())
    } else {
        s
    }
}

/// `s` without its leading and trailing white space.
pub open spec fn trimmed(s: Seq<char>) -> Seq<char> {
    trimmed_end(trimmed_start(s))
}

/// `s` without the characters equal to `unwanted`, the others in their
/// order.
pub open spec fn without_char(s: Seq<char>, unwanted: char) -> Seq<char> {
    s.filter(|c: char| c != unwanted)
}

/// Calls `Sha512::new`, `Digest::input` and `Digest::result` of the crate
/// `crypto` once each. Relied on: the 64 bytes written are the SHA-512
/// digest of `data`.
#[verifier::external_body]
pub(crate) fn sha512_digest(data: &[u8]) -> (out: Vec<u8>)
    ensures
        out@ == sha512(data@),
        out@.len() == 64,
{
    let mut digest = crypto::sha2::Sha512::new();
    digest.input(data);
    let mut out = vec![0u8; digest.output_bytes()];
    digest.result(&mut out);
    out
}

/// Calls `Hmac::new` over `Sha256`, `Mac::input` and `Mac::result` of the
/// crate `crypto` once each. Relied on: the 32 bytes of the result are the
/// HMAC-SHA-256 code of `data` under `key`, whatever the length of `key`.
#[verifier::external_body]
pub(crate) fn hmac_sha256_code(key: &[u8], data: &[u8]) -> (code: Vec<u8>)
    ensures
        code@ == hmac_sha256(key@, data@),
        code@.len() == 32,
{
    let mut mac = crypto::hmac::Hmac::new(crypto::sha2::Sha256::new(), key);
    mac.input(data);
    mac.result().code().to_vec()
}

/// Compares two codes through `==` on `MacResult` of the crate `crypto`,
/// which takes the same time whatever the bytes hold. Relied on: it
/// answers whether the two are the same bytes. Two empty codes are left
/// out: the comparison reads the first byte of each.
#[verifier::external_body]
pub(crate) fn codes_match(left: &[u8], right: &[u8]) -> (same: bool)
    requires
        left@.len() > 0 || right@.len() > 0,
    ensures
        same == (left@ == right@),
{
    crypto::mac::MacResult::new(left) == crypto::mac::MacResult::new(right)
}

/// Calls `hkdf::hkdf_extract` of the crate `crypto` with `Sha256`. The
/// result is named, not spelled out; it has the 32 bytes of a SHA-256
/// digest.
#[verifier::external_body]
pub(crate) fn hkdf_extract(salt: &[u8], ikm: &[u8]) -> (prk: Vec<u8>)
    ensures
        prk@ == hkdf_extract_sha256(salt@, ikm@),
        prk@.len() == 32,
{
    let digest = crypto::sha2::Sha256::new();
    let mut prk = vec![0u8; digest.output_bytes()];
    crypto::hkdf::hkdf_extract(digest, salt, ikm, &mut prk);
    prk
}

/// Calls `hkdf::hkdf_expand` of the crate `crypto` with `Sha256`, into a
/// buffer of `len` bytes. The result is named, not spelled out. The
/// outside function gives up beyond 255 blocks of 32 bytes, so longer
/// outputs are left out.
#[verifier::external_body]
pub(crate) fn hkdf_expand(prk: &[u8], info: &[u8], len: usize) -> (okm: Vec<u8>)
    requires
        len <= 255 * 32,
    ensures
        okm@ == hkdf_expand_sha256(prk@, info@, len as nat),
        okm@.len() == len,
{
    let mut okm = vec![0u8; len];
    crypto::hkdf::hkdf_expand(crypto::sha2::Sha256::new(), prk, info, &mut okm);
    okm
}

/// Calls `aes::ctr` of the crate `crypto` for a 128-bit key and runs
/// `process` once over `data`. Relied on: every output byte is the input
/// byte combined by exclusive or with the keystream byte at its place, and
/// the keystream is the same for the same key and starting counter block.
/// Key and counter block must have 16 bytes each: the outside function
/// reads that many.
#[verifier::external_body]
pub(crate) fn aes128_ctr_process(key: &[u8], iv: &[u8], data: &[u8]) -> (out: Vec<u8>)
    requires
        key@.len() == 16,
        iv@.len() == 16,
    ensures
        out@ == xor_bytes(data@, aes128_ctr_keystream(key@, iv@, data@.len())),
{
    let mut cipher = crypto::aes::ctr(crypto::aes::KeySize::KeySize128, key, iv);
    let mut out = vec![0u8; data.len()];
    cipher.process(data, &mut out);
    out
}

/// Calls `Buf::get_u32` of the crate `bytes` on a cursor over `bytes`,
/// with `BigEndian` of the crate `byteorder`. Relied on: it reads the
/// first four bytes, most significant first. It panics on fewer than four.
#[allow(deprecated)]
#[verifier::external_body]
pub(crate) fn leading_u32(bytes: &[u8]) -> (n: u32)
    requires
        bytes@.len() >= 4,
    ensures
        n == be_value(bytes@),
{
    std::io::Cursor::new(bytes).get_u32::<byteorder::BigEndian>()
}

/// Calls `str::trim`. Relied on: it returns the part of `s` between its
/// leading and its trailing white space.
#[verifier::external_body]
pub(crate) fn trim(s: &str) -> (t: &str)
    ensures
        t@ == trimmed(s@),
{
    s.trim()
}

/// Calls `str::replace` to replace every `unwanted` by the empty string.
/// Relied on: the result holds the other characters of `s` in their order.
#[verifier::external_body]
pub(crate) fn remove_char(s: &str, unwanted: char) -> (t: String)
    ensures
        t@ == without_char(s@, unwanted),
{
    s.replace(unwanted, "")
}

} // verus!
