//! From passphrase and salt to the two session keys.
//!
//! The passphrase is stripped of white space, stretched through 250 000
//! rounds of SHA-512 and cut to 32 bytes; HKDF then expands that backup key
//! into a cipher key and a MAC key.

use vstd::prelude::*;
use vstd::slice::slice_to_vec;
use crate::hkdf3::{derive_secrets, derived_secrets};
use crate::primitives::{remove_char, sha512, sha512_digest, trim, trimmed, without_char};
use crate::util::{zeroed, zeros, VecExt};

verus! {

/// Number of SHA-512 rounds a passphrase goes through.
pub const ROUNDS: u32 = 250_000;

/// Length of the backup key, and of each of the two keys drawn from it.
pub const KEY_SIZE: usize = 32;

/// The bytes a passphrase is hashed as: without the white space around it,
/// without any space inside it, in UTF-8.
pub open spec fn password_bytes(password: Seq<char>) -> Seq<u8> {
    vstd::utf8::encode_utf8(without_char(trimmed(password), ' '))
}

/// `hash` after `rounds` further rounds, each of which digests the hash so
/// far followed by `input`.
pub open spec fn rehashed(hash: Seq<u8>, input: Seq<u8>, rounds: nat) -> Seq<u8>
    decreases rounds,
{
    if rounds == 0 {
        hash
    } else {
        sha512(rehashed(hash, input, (rounds - 1) as nat) + input)
    }
}

/// The hash after `rounds` rounds in all. Before the first round it is 64
/// zero bytes. The first round digests the salt followed by the input
/// twice; the zero bytes do not enter it. Every later round digests the
/// previous hash followed by the input.
pub open spec fn stretched(input: Seq<u8>, salt: Seq<u8>, rounds: nat) -> Seq<u8> {
    if rounds == 0 {
        zeros(64)
    } else {
        rehashed(sha512(salt + input + input), input, (rounds - 1) as nat)
    }
}

/// The backup key of a passphrase and a salt.
pub open spec fn backup_key_of(password: Seq<char>, salt: Seq<u8>) -> Seq<u8> {
    stretched(password_bytes(password), salt, ROUNDS as nat).take(KEY_SIZE as int)
}

/// Strips `password` of the white space around it and of every space, and
/// returns what is left as UTF-8 bytes.
pub fn normalize_password(password: &str) -> (input: Vec<u8>)
    ensures
        input@ == password_bytes(password@),
{
    let stripped = remove_char(trim(password), ' ');
    slice_to_vec(stripped.as_str().as_bytes())
}

/// Runs `rounds` rounds of SHA-512 over `input`, the first one salted.
pub fn stretch(input: &[u8], salt: &[u8], rounds: u32) -> (hash: Vec<u8>)
    ensures
        hash@ == stretched(input@, salt@, rounds as nat),
        hash@.len() == 64,
{
    if rounds == 0 {
        return zeroed(64);
    }
    let mut block: Vec<u8> = Vec::new();
    block.extend_from_slice(salt);
    block.extend_from_slice(input);
    block.extend_from_slice(input);
    assert(block@ =~= salt@ + input@ + input@);
    let mut hash = sha512_digest(block.as_slice());
    let mut done: u32 = 1;
    while done < rounds
        invariant
            1 <= done <= rounds,
            hash@ == rehashed(sha512(salt@ + input@ + input@), input@, (done - 1) as nat),
            hash@.len() == 64,
        decreases rounds - done,
    {
        let ghost before = hash@;
        let mut block = hash;
        block.extend_from_slice(input);
        assert(block@ =~= before + input@);
        hash = sha512_digest(block.as_slice());
        done = done + 1;
    }
    hash
}

/// Derives the 32-byte backup key from a passphrase and the header's salt.
pub fn backup_key(password: &str, salt: &[u8]) -> (key: Vec<u8>)
    ensures
        key@ == backup_key_of(password@, salt@),
        key@.len() == KEY_SIZE,
{
    let input = normalize_password(password);
    let mut hash = stretch(input.as_slice(), salt, ROUNDS);
    hash.truncate(KEY_SIZE);
    hash
}

/// The context string the two session keys are expanded under.
pub open spec fn export_info() -> Seq<u8> {
    vstd::utf8::encode_utf8("Backup Export"@)
}

/// A cipher key and a MAC key, as byte sequences.
pub struct KeyPair {
    pub cipher_key: Seq<u8>,
    pub mac_key: Seq<u8>,
}

/// The two keys that 64 bytes of keying material split into: the first
/// half and the second half.
pub open spec fn split_keys(okm: Seq<u8>) -> KeyPair {
    KeyPair { cipher_key: okm.take(KEY_SIZE as int), mac_key: okm.skip(KEY_SIZE as int) }
}

/// The two keys a backup key expands to: the halves of 64 bytes of HKDF
/// output, drawn with an empty salt.
pub open spec fn expanded_keys(backup_key: Seq<u8>) -> KeyPair {
    split_keys(derived_secrets(backup_key, Seq::<u8>::empty(), export_info()))
}

/// The two keys of a passphrase and a salt.
pub open spec fn derived_keys(password: Seq<char>, salt: Seq<u8>) -> KeyPair {
    expanded_keys(backup_key_of(password, salt))
}

/// The keys of one session: a cipher key and a MAC key of 32 bytes each.
pub struct KeyMaterial {
    cipher_key: Vec<u8>,
    mac_key: Vec<u8>,
}

impl View for KeyMaterial {
    type V = KeyPair;

    closed spec fn view(&self) -> KeyPair {
        KeyPair { cipher_key: self.cipher_key@, mac_key: self.mac_key@ }
    }
}

impl KeyMaterial {
    #[verifier::type_invariant]
    spec fn sized(self) -> bool {
        self.cipher_key@.len() == KEY_SIZE && self.mac_key@.len() == KEY_SIZE
    }

    /// Splits 64 bytes of keying material into the two session keys.
    pub fn split(okm: Vec<u8>) -> (keys: KeyMaterial)
        requires
            okm@.len() == 2 * KEY_SIZE,
        ensures
            keys@ == split_keys(okm@),
    {
        let mut okm = okm;
        let cipher_key = okm.chew(KEY_SIZE);
        KeyMaterial { cipher_key, mac_key: okm }
    }

    /// Expands a backup key into the two session keys.
    pub fn expand(backup_key: &[u8]) -> (keys: KeyMaterial)
        ensures
            keys@ == expanded_keys(backup_key@),
    {
        KeyMaterial::split(derive_secrets(backup_key, "Backup Export".as_bytes()))
    }

    /// Derives the two session keys from a passphrase and the header's
    /// salt.
    pub fn derive(password: &str, salt: &[u8]) -> (keys: KeyMaterial)
        ensures
            keys@ == derived_keys(password@, salt@),
    {
        let key = backup_key(password, salt);
        KeyMaterial::expand(key.as_slice())
    }

    /// The cipher key.
    pub fn cipher_key(&self) -> (key: &[u8])
        ensures
            key@ == self@.cipher_key,
            key@.len() == KEY_SIZE,
    {
        proof {
            use_type_invariant(self);
        }
        self.cipher_key.as_slice()
    }

    /// The MAC key.
    pub fn mac_key(&self) -> (key: &[u8])
        ensures
            key@ == self@.mac_key,
            key@.len() == KEY_SIZE,
    {
        proof {
            use_type_invariant(self);
        }
        self.mac_key.as_slice()
    }
}

/// The keys are a function of the salt and of the bytes the passphrase is
/// hashed as: equal salts and passphrases that come to the same bytes give
/// equal keys, in every derivation. In particular one passphrase and one
/// salt always give the same keys, and white space around a passphrase or
/// spaces inside it make no difference.
pub proof fn lemma_keys_follow_password_bytes(
    password: Seq<char>,
    salt: Seq<u8>,
    other_password: Seq<char>,
    other_salt: Seq<u8>,
)
    requires
        password_bytes(password) == password_bytes(other_password),
        salt == other_salt,
    ensures
        backup_key_of(password, salt) == backup_key_of(other_password, other_salt),
        derived_keys(password, salt) == derived_keys(other_password, other_salt),
{
}

} // verus!
