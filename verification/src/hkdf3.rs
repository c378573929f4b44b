//! HKDF over SHA-256, in the one shape the backup format uses: extract,
//! then expand to 64 bytes.

use vstd::prelude::*;
use crate::primitives::{hkdf_expand, hkdf_expand_sha256, hkdf_extract, hkdf_extract_sha256};

verus! {

/// Length of a SHA-256 digest in bytes.
pub const HASH_OUTPUT_SIZE: usize = 32;

/// Length of the output keying material in bytes: a cipher key and a MAC
/// key of one digest length each.
pub const OUTPUT_SIZE: usize = 64;

/// The 64 bytes of keying material drawn from `input` under `salt` for the
/// context `info`.
pub open spec fn derived_secrets(input: Seq<u8>, salt: Seq<u8>, info: Seq<u8>) -> Seq<u8> {
    hkdf_expand_sha256(hkdf_extract_sha256(salt, input), info, OUTPUT_SIZE as nat)
}

/// Derives 64 bytes of keying material from `input` with an empty salt.
pub fn derive_secrets(input: &[u8], info: &[u8]) -> (okm: Vec<u8>)
    ensures
        okm@ == derived_secrets(input@, Seq::<u8>::empty(), info@),
        okm@.len() == OUTPUT_SIZE,
{
    let salt: Vec<u8> = Vec::with_capacity(HASH_OUTPUT_SIZE);
    derive_secrets_with_salt(input, salt.as_slice(), info)
}

/// Derives 64 bytes of keying material from `input` under `salt`.
pub fn derive_secrets_with_salt(input: &[u8], salt: &[u8], info: &[u8]) -> (okm: Vec<u8>)
    ensures
        okm@ == derived_secrets(input@, salt@, info@),
        okm@.len() == OUTPUT_SIZE,
{
    let prk = hkdf_extract(salt, input);
    hkdf_expand(prk.as_slice(), info, OUTPUT_SIZE)
}

} // verus!
