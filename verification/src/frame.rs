//! One frame: its split into ciphertext and tag, the check of the tag,
//! and the cipher that turns the ciphertext into plaintext.
//!
//! A frame's body is a ciphertext followed by a 10-byte tag, the head of
//! the HMAC-SHA-256 code of the ciphertext. The ciphertext is the plaintext
//! under AES-128 in counter mode. The counter block of a frame is the
//! stored one with its last four bytes replaced by the frame counter, which
//! goes up by one with every frame.

use vstd::prelude::*;
use vstd::slice::{slice_subrange, slice_to_vec};
use crate::error::{Error, ErrorKind};
use crate::keys::KeyMaterial;
use crate::primitives::{
    aes128_ctr,
    aes128_ctr_keystream,
    aes128_ctr_process,
    codes_match,
    hmac_sha256,
    hmac_sha256_code,
    leading_u32,
};
use crate::util::{be_bytes, be_value, u32_as_vec};

verus! {

/// Length of a frame's tag in bytes.
pub const TAG_SIZE: usize = 10;

/// Length of a counter block in bytes.
pub const IV_SIZE: usize = 16;

/// Length of the AES-128 key in bytes: the head of the cipher key.
pub const CIPHER_KEY_SIZE: usize = 16;

/// Where in the counter block the frame counter stands.
pub const COUNTER_OFFSET: usize = 12;

/// The ciphertext of a frame's body: all but the last 10 bytes.
pub open spec fn frame_ciphertext(body: Seq<u8>) -> Seq<u8> {
    body.take(body.len() - TAG_SIZE)
}

/// The tag of a frame's body: its last 10 bytes.
pub open spec fn frame_tag(body: Seq<u8>) -> Seq<u8> {
    body.skip(body.len() - TAG_SIZE)
}

/// The tag that `ciphertext` must carry under `mac_key`: the first 10
/// bytes of its HMAC-SHA-256 code.
pub open spec fn expected_tag(mac_key: Seq<u8>, ciphertext: Seq<u8>) -> Seq<u8> {
    Seq::new(TAG_SIZE as nat, |i: int| hmac_sha256(mac_key, ciphertext)[i])
}

/// Whether `tag` is the tag that `ciphertext` must carry under `mac_key`.
pub open spec fn authentic(mac_key: Seq<u8>, ciphertext: Seq<u8>, tag: Seq<u8>) -> bool {
    tag == expected_tag(mac_key, ciphertext)
}

/// The counter that follows `counter`; after the largest comes zero.
pub open spec fn next_counter(counter: u32) -> u32 {
    if counter == u32::MAX {
        0
    } else {
        (counter + 1) as u32
    }
}

/// What a frame cipher holds: the AES key, the counter block of the last
/// frame (of the header before the first), and the counter of the next.
pub struct CipherState {
    pub key: Seq<u8>,
    pub iv: Seq<u8>,
    pub counter: u32,
}

impl CipherState {
    /// The counter block of the next frame: the first 12 bytes as they
    /// are, then the counter, most significant byte first.
    pub open spec fn frame_iv(self) -> Seq<u8> {
        self.iv.take(COUNTER_OFFSET as int) + be_bytes(self.counter)
    }

    /// What the cipher makes of the next frame's bytes. Decrypting and
    /// encrypting are the same operation.
    pub open spec fn apply(self, data: Seq<u8>) -> Seq<u8> {
        aes128_ctr(self.key, self.frame_iv(), data)
    }

    /// The state after one frame.
    pub open spec fn next(self) -> CipherState {
        CipherState { key: self.key, iv: self.frame_iv(), counter: next_counter(self.counter) }
    }

    /// The state after `frames` frames.
    pub open spec fn after(self, frames: nat) -> CipherState
        decreases frames,
    {
        if frames == 0 {
            self
        } else {
            self.after((frames - 1) as nat).next()
        }
    }
}

/// A frame as it stands in a backup: the length of what follows, most
/// significant byte first, then the ciphertext, then the tag.
pub open spec fn framed(ciphertext: Seq<u8>, tag: Seq<u8>) -> Seq<u8> {
    be_bytes((ciphertext.len() + tag.len()) as u32) + ciphertext + tag
}

/// The frame that holds `plaintext` for a decoder whose cipher is in the
/// state `cipher` and whose MAC key is `mac_key`.
pub open spec fn sealed_frame(cipher: CipherState, mac_key: Seq<u8>, plaintext: Seq<u8>) -> Seq<
    u8,
> {
    let ciphertext = cipher.apply(plaintext);
    framed(ciphertext, expected_tag(mac_key, ciphertext))
}

/// `s` with one bit changed: bit `bit % 8` of the byte at `bit / 8`.
pub open spec fn flip_bit(s: Seq<u8>, bit: nat) -> Seq<u8> {
    s.update((bit / 8) as int, s[(bit / 8) as int] ^ (1u8 << ((bit % 8) as u8)))
}

/// Splits a frame's body into ciphertext and tag. Fails where the body is
/// shorter than a tag.
pub fn split_frame(body: &[u8]) -> (r: Result<(&[u8], &[u8]), Error>)
    ensures
        match r {
            Ok((ciphertext, tag)) => {
                &&& body@.len() >= TAG_SIZE
                &&& ciphertext@ == frame_ciphertext(body@)
                &&& tag@ == frame_tag(body@)
            },
            Err(e) => body@.len() < TAG_SIZE && e.holds(ErrorKind::Format, "frame too short", None),
        },
{
    let len: usize = body.len();
    if len < TAG_SIZE {
        return Err(Error::new("frame too short"));
    }
    let ciphertext = slice_subrange(body, 0, len - TAG_SIZE);
    let tag = slice_subrange(body, len - TAG_SIZE, len);
    Ok((ciphertext, tag))
}

/// Whether `tag` is the head of `code`: its first 10 bytes, where it has
/// as many.
pub open spec fn heads(tag: Seq<u8>, code: Seq<u8>) -> bool {
    code.len() >= TAG_SIZE && tag == code.take(TAG_SIZE as int)
}

/// Checks a tag against the code that was computed for its ciphertext:
/// the tag must be the first 10 bytes of the code. The comparison takes
/// the same time whatever the tag holds. A tag of any other length than
/// 10 is a mismatch, and so is any tag for a code of fewer than 10 bytes.
pub fn check_tag(tag: &[u8], code: &[u8]) -> (r: Result<(), Error>)
    ensures
        match r {
            Ok(_) => heads(tag@, code@),
            Err(e) => !heads(tag@, code@) && e.holds(
                ErrorKind::Authentication,
                "frame authentication failed",
                None,
            ),
        },
{
    if code.len() < TAG_SIZE {
        return Err(Error::authentication());
    }
    let expected = slice_subrange(code, 0, TAG_SIZE);
    if codes_match(tag, expected) {
        Ok(())
    } else {
        Err(Error::authentication())
    }
}

/// Checks a frame's tag against its ciphertext: computes the code of the
/// ciphertext under `mac_key` and checks the tag against it.
pub fn verify(ciphertext: &[u8], tag: &[u8], mac_key: &[u8]) -> (r: Result<(), Error>)
    ensures
        match r {
            Ok(_) => authentic(mac_key@, ciphertext@, tag@),
            Err(e) => !authentic(mac_key@, ciphertext@, tag@) && e.holds(
                ErrorKind::Authentication,
                "frame authentication failed",
                None,
            ),
        },
{
    let code = hmac_sha256_code(mac_key, ciphertext);
    assert(code@.take(TAG_SIZE as int) =~= expected_tag(mac_key@, ciphertext@));
    check_tag(tag, code.as_slice())
}

/// AES-128 in counter mode with a counter block that follows the frames.
pub struct FrameCipher {
    key: Vec<u8>,
    iv: Vec<u8>,
    counter: u32,
}

impl View for FrameCipher {
    type V = CipherState;

    closed spec fn view(&self) -> CipherState {
        CipherState { key: self.key@, iv: self.iv@, counter: self.counter }
    }
}

impl FrameCipher {
    #[verifier::type_invariant]
    spec fn sized(self) -> bool {
        self.key@.len() == CIPHER_KEY_SIZE && self.iv@.len() == IV_SIZE
    }

    /// A cipher for the frames that follow a header with the counter
    /// block `iv`. It is keyed with the first 16 bytes of the cipher key,
    /// and the frame counter starts at the number that the first four
    /// bytes of `iv` spell. Fails where `iv` is not 16 bytes long.
    pub fn new(keys: &KeyMaterial, iv: &[u8]) -> (r: Result<FrameCipher, Error>)
        ensures
            match r {
                Ok(cipher) => {
                    &&& iv@.len() == IV_SIZE
                    &&& cipher@ == CipherState {
                        key: keys@.cipher_key.take(CIPHER_KEY_SIZE as int),
                        iv: iv@,
                        counter: be_value(iv@) as u32,
                    }
                },
                Err(e) => iv@.len() != IV_SIZE && e.holds(
                    ErrorKind::Format,
                    "invalid iv length",
                    None,
                ),
            },
    {
        if iv.len() != IV_SIZE {
            return Err(Error::new("invalid iv length"));
        }
        let key = slice_to_vec(slice_subrange(keys.cipher_key(), 0, CIPHER_KEY_SIZE));
        let counter: u32 = leading_u32(iv);
        Ok(FrameCipher { key, iv: slice_to_vec(iv), counter })
    }

    /// Decrypts the next frame's ciphertext. The counter block takes the
    /// current counter into its last four bytes, the cipher runs from
    /// that block, and the counter goes up by one.
    pub fn decrypt_frame(&mut self, ciphertext: &[u8]) -> (plaintext: Vec<u8>)
        ensures
            plaintext@ == old(self)@.apply(ciphertext@),
            final(self)@ == old(self)@.next(),
    {
        proof {
            use_type_invariant(&*self);
        }
        let mut iv = slice_to_vec(slice_subrange(self.iv.as_slice(), 0, COUNTER_OFFSET));
        let mut counter_bytes = u32_as_vec(self.counter);
        iv.append(&mut counter_bytes);
        let plaintext = aes128_ctr_process(self.key.as_slice(), iv.as_slice(), ciphertext);
        self.iv = iv;
        self.counter = self.counter.wrapping_add(1);
        plaintext
    }

    /// The counter of the next frame.
    pub fn counter(&self) -> (counter: u32)
        ensures
            counter == self@.counter,
    {
        self.counter
    }

    /// The counter block of the last frame, or of the header where no
    /// frame has been decrypted yet.
    pub fn iv(&self) -> (iv: &[u8])
        ensures
            iv@ == self@.iv,
            iv@.len() == IV_SIZE,
    {
        proof {
            use_type_invariant(self);
        }
        self.iv.as_slice()
    }
}

/// Running the cipher twice from the same state gives the data back:
/// what was encrypted for a frame decrypts to the plaintext, byte for byte.
pub proof fn lemma_apply_twice_is_identity(cipher: CipherState, data: Seq<u8>)
    ensures
        cipher.apply(data).len() == data.len(),
        cipher.apply(cipher.apply(data)) == data,
{
    let pad = aes128_ctr_keystream(cipher.key, cipher.frame_iv(), data.len());
    let once = cipher.apply(data);
    let twice = cipher.apply(once);
    assert forall|i: int| 0 <= i < data.len() implies twice[i] == data[i] by {
        let d = data[i];
        let k = pad[i];
        assert((d ^ k) ^ k == d) by (bit_vector);
    }
    assert(twice =~= data);
}

/// Changing one bit of a byte sequence changes the sequence and not its
/// length.
pub proof fn lemma_flipped_bit_differs(s: Seq<u8>, bit: nat)
    requires
        bit < 8 * s.len(),
    ensures
        flip_bit(s, bit).len() == s.len(),
        flip_bit(s, bit) != s,
{
    let at = (bit / 8) as int;
    let shift = (bit % 8) as u8;
    let byte = s[at];
    assert(byte ^ (1u8 << shift) != byte) by (bit_vector)
        requires
            shift < 8,
    ;
    assert(flip_bit(s, bit)[at] != s[at]);
}

proof fn lemma_next_counter(counter: u32, frames: nat)
    ensures
        next_counter(((counter + frames) % 0x1_0000_0000) as u32) == (counter + frames + 1)
            % 0x1_0000_0000,
{
    let sum = counter + frames;
    let wrapped = sum % 0x1_0000_0000;
    assert((sum + 1) % 0x1_0000_0000 == if wrapped == 0xffff_ffff {
        0
    } else {
        wrapped + 1
    }) by (nonlinear_arith)
        requires
            wrapped == sum % 0x1_0000_0000,
            sum >= 0,
    ;
}

proof fn lemma_frame_iv_parts(cipher: CipherState)
    requires
        cipher.iv.len() == IV_SIZE,
    ensures
        cipher.frame_iv().len() == IV_SIZE,
        cipher.frame_iv().take(COUNTER_OFFSET as int) == cipher.iv.take(COUNTER_OFFSET as int),
        cipher.frame_iv().skip(COUNTER_OFFSET as int) == be_bytes(cipher.counter),
{
    assert(cipher.frame_iv().take(COUNTER_OFFSET as int) =~= cipher.iv.take(
        COUNTER_OFFSET as int,
    ));
    assert(cipher.frame_iv().skip(COUNTER_OFFSET as int) =~= be_bytes(cipher.counter));
}

/// The counter blocks of successive frames. For the frame with index
/// `frames`, counted from zero, the counter is the first counter plus
/// `frames`, wrapped to 32 bits; the last four bytes of its counter block
/// spell that counter, most significant byte first, and the first twelve
/// are those of the first counter block.
pub proof fn lemma_counter_follows_frames(cipher: CipherState, frames: nat)
    requires
        cipher.iv.len() == IV_SIZE,
    ensures
        cipher.after(frames).key == cipher.key,
        cipher.after(frames).iv.len() == IV_SIZE,
        cipher.after(frames).iv.take(COUNTER_OFFSET as int) == cipher.iv.take(
            COUNTER_OFFSET as int,
        ),
        cipher.after(frames).counter == (cipher.counter + frames) % 0x1_0000_0000,
        cipher.after(frames).frame_iv().take(COUNTER_OFFSET as int) == cipher.iv.take(
            COUNTER_OFFSET as int,
        ),
        cipher.after(frames).frame_iv().skip(COUNTER_OFFSET as int) == be_bytes(
            ((cipher.counter + frames) % 0x1_0000_0000) as u32,
        ),
    decreases frames,
{
    if frames > 0 {
        let before = cipher.after((frames - 1) as nat);
        lemma_counter_follows_frames(cipher, (frames - 1) as nat);
        lemma_frame_iv_parts(before);
        lemma_next_counter(cipher.counter, (frames - 1) as nat);
        assert(cipher.after(frames) == before.next());
    }
    lemma_frame_iv_parts(cipher.after(frames));
}

} // verus!
