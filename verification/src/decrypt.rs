//! The decoder of one backup: from the header to the end marker, one frame
//! per call.
//!
//! The decoder is opened on the decoded header record and the bytes that
//! follow the header region. Each call of [`BackupFile::next_frame`] takes
//! one frame off the stream, checks its tag and only then decrypts it. The
//! caller decodes the plaintext into a record and reports the result with
//! [`BackupFile::finish_frame`]; a record that marks the end closes the
//! decoder. Any failure closes it for good.

use vstd::prelude::*;
use vstd::slice::slice_to_vec;
use crate::cursor::{after_region, has_region, region, ByteCursor, LENGTH_SIZE};
use crate::error::{Error, ErrorKind};
use crate::frame::{
    authentic,
    expected_tag,
    flip_bit,
    frame_ciphertext,
    frame_tag,
    framed,
    lemma_apply_twice_is_identity,
    lemma_flipped_bit_differs,
    sealed_frame,
    split_frame,
    verify,
    CipherState,
    FrameCipher,
    CIPHER_KEY_SIZE,
    IV_SIZE,
    TAG_SIZE,
};
use crate::keys::{derived_keys, KeyMaterial, KeyPair};
use crate::signal::BackupFrame;
use crate::util::{be_bytes, be_value, lemma_be_value_of_be_bytes};

verus! {

/// Where a decoder stands.
#[derive(Clone, Copy, Debug, PartialEq, Eq, Structural)]
pub enum Phase {
    /// The header has been read; no frame yet.
    HeaderParsed,
    /// At least one frame has been read, none has marked the end.
    Streaming,
    /// A record has marked the end. Nothing is read any more.
    Ended,
    /// A frame or a record was refused. Nothing is read any more.
    Failed,
}

/// How the attempt to read one frame comes out.
pub enum Outcome {
    /// The frame was authentic; this is its plaintext.
    Plain(Seq<u8>),
    /// The decoder has ended or failed before; nothing was read.
    Closed,
    /// The stream does not start with a whole region.
    Truncated,
    /// The frame's body is shorter than a tag.
    TooShort,
    /// The tag is not the one the ciphertext must carry.
    BadTag,
}

/// What a decoder holds: the bytes not read yet, the state of the cipher,
/// the MAC key, the phase, and the number of frames read so far.
pub struct DecoderState {
    pub stream: Seq<u8>,
    pub cipher: CipherState,
    pub mac_key: Seq<u8>,
    pub phase: Phase,
    pub frames: nat,
}

impl DecoderState {
    /// Whether frames can still be read.
    pub open spec fn is_open(self) -> bool {
        self.phase == Phase::HeaderParsed || self.phase == Phase::Streaming
    }

    /// How reading the next frame comes out. The checks run in this
    /// order, and the cipher runs only on a frame that passed them all.
    pub open spec fn outcome(self) -> Outcome {
        let body = region(self.stream);
        if !self.is_open() {
            Outcome::Closed
        } else if !has_region(self.stream) {
            Outcome::Truncated
        } else if body.len() < TAG_SIZE {
            Outcome::TooShort
        } else if !authentic(self.mac_key, frame_ciphertext(body), frame_tag(body)) {
            Outcome::BadTag
        } else {
            Outcome::Plain(self.cipher.apply(frame_ciphertext(body)))
        }
    }

    /// The state after the attempt to read the next frame. An authentic
    /// frame is taken off the stream and moves the cipher on. A refused
    /// frame changes the phase and nothing else. A closed decoder stays
    /// as it is.
    pub open spec fn after_frame(self) -> DecoderState {
        match self.outcome() {
            Outcome::Plain(_) => DecoderState {
                stream: after_region(self.stream),
                cipher: self.cipher.next(),
                mac_key: self.mac_key,
                phase: Phase::Streaming,
                frames: self.frames + 1,
            },
            Outcome::Closed => self,
            _ => DecoderState { phase: Phase::Failed, ..self },
        }
    }

    /// The state after the caller has reported on the record of the last
    /// frame: `None` where the plaintext did not decode, else whether the
    /// record marks the end. Only a decoder that is streaming listens.
    pub open spec fn after_record(self, end: Option<bool>) -> DecoderState {
        if self.phase != Phase::Streaming {
            self
        } else {
            match end {
                None => DecoderState { phase: Phase::Failed, ..self },
                Some(true) => DecoderState { phase: Phase::Ended, ..self },
                Some(false) => self,
            }
        }
    }
}

/// Whether `r` is what a read at frame index `frame` returns for `outcome`.
pub open spec fn reports(r: Result<Vec<u8>, Error>, outcome: Outcome, frame: nat) -> bool {
    match outcome {
        Outcome::Plain(plaintext) => r matches Ok(v) && v@ == plaintext,
        Outcome::Closed => r matches Err(e) && e.holds(ErrorKind::Format, "no more frames", None),
        Outcome::Truncated => r matches Err(e) && e.holds(
            ErrorKind::Format,
            "truncated region",
            Some(frame as usize),
        ),
        Outcome::TooShort => r matches Err(e) && e.holds(
            ErrorKind::Format,
            "frame too short",
            Some(frame as usize),
        ),
        Outcome::BadTag => r matches Err(e) && e.holds(
            ErrorKind::Authentication,
            "frame authentication failed",
            Some(frame as usize),
        ),
    }
}

/// Whether `record` is a decoded header record that a decoder can be
/// opened on: it holds a header, and the header a counter block of 16
/// bytes.
pub open spec fn valid_header(record: Option<BackupFrame>) -> bool {
    &&& record matches Some(frame)
    &&& frame.header matches Some(header)
    &&& header.iv matches Some(iv)
    &&& iv@.len() == IV_SIZE
}

/// What is wrong with a header record that is not valid.
pub open spec fn header_fault(record: Option<BackupFrame>) -> &'static str {
    match record {
        None => "invalid header record",
        Some(frame) => match frame.header {
            None => "missing header",
            Some(header) => match header.iv {
                None => "missing iv",
                Some(_) => "invalid iv length",
            },
        },
    }
}

/// The counter block of a valid header record.
pub open spec fn header_iv(record: Option<BackupFrame>) -> Seq<u8> {
    record->0.header->0.iv->0@
}

/// The salt of a valid header record; empty where the header has none.
pub open spec fn header_salt(record: Option<BackupFrame>) -> Seq<u8> {
    match record->0.header->0.salt {
        Some(salt) => salt@,
        None => Seq::empty(),
    }
}

/// The state of a decoder that has just been opened with `keys` on a
/// header with the counter block `iv`, before the bytes `stream`.
pub open spec fn opened(keys: KeyPair, iv: Seq<u8>, stream: Seq<u8>) -> DecoderState {
    DecoderState {
        stream,
        cipher: CipherState {
            key: keys.cipher_key.take(CIPHER_KEY_SIZE as int),
            iv,
            counter: be_value(iv) as u32,
        },
        mac_key: keys.mac_key,
        phase: Phase::HeaderParsed,
        frames: 0,
    }
}

/// What the caller's report on a record comes to: `None` for a plaintext
/// that did not decode, else whether the record marks the end.
pub open spec fn end_mark(record: Option<BackupFrame>) -> Option<bool> {
    match record {
        None => None,
        Some(frame) => Some(frame.end == Some(true)),
    }
}

/// The decoder of one backup.
pub struct BackupFile {
    cursor: ByteCursor,
    cipher: FrameCipher,
    mac_key: Vec<u8>,
    phase: Phase,
    frames_read: usize,
}

impl View for BackupFile {
    type V = DecoderState;

    closed spec fn view(&self) -> DecoderState {
        DecoderState {
            stream: self.cursor@,
            cipher: self.cipher@,
            mac_key: self.mac_key@,
            phase: self.phase,
            frames: self.frames_read as nat,
        }
    }
}

impl BackupFile {
    /// Whether the count of frames is in step with the stream: every
    /// frame read has moved the cursor on, and a decoder that is streaming
    /// has read one at least. Every decoder that this module hands out is
    /// well formed, and its methods keep it so.
    pub closed spec fn wf(&self) -> bool {
        &&& self.frames_read <= self.cursor.consumed()
        &&& self.phase == Phase::Streaming ==> self.frames_read >= 1
    }

    /// Opens a decoder with keys that are already derived, on a header
    /// with the counter block `iv`; `stream` stands behind the header
    /// region. Fails where `iv` is not 16 bytes long.
    pub fn with_keys(iv: &[u8], keys: &KeyMaterial, stream: ByteCursor) -> (r: Result<
        BackupFile,
        Error,
    >)
        ensures
            match r {
                Ok(file) => {
                    &&& iv@.len() == IV_SIZE
                    &&& file.wf()
                    &&& file@ == opened(keys@, iv@, stream@)
                },
                Err(e) => iv@.len() != IV_SIZE && e.holds(
                    ErrorKind::Format,
                    "invalid iv length",
                    None,
                ),
            },
    {
        let cipher = match FrameCipher::new(keys, iv) {
            Ok(cipher) => cipher,
            Err(e) => {
                return Err(e);
            },
        };
        Ok(
            BackupFile {
                cursor: stream,
                cipher,
                mac_key: slice_to_vec(keys.mac_key()),
                phase: Phase::HeaderParsed,
                frames_read: 0,
            },
        )
    }

    /// Opens a decoder on the decoded header record, `None` where the
    /// header region did not decode; `stream` stands behind the header
    /// region. The header is checked first, and only for a valid one are
    /// the keys derived from `password` and the header's salt.
    pub fn new(header: Option<BackupFrame>, stream: ByteCursor, password: &str) -> (r: Result<
        BackupFile,
        Error,
    >)
        ensures
            match r {
                Ok(file) => {
                    &&& valid_header(header)
                    &&& file.wf()
                    &&& file@ == opened(
                        derived_keys(password@, header_salt(header)),
                        header_iv(header),
                        stream@,
                    )
                },
                Err(e) => !valid_header(header) && e.holds(
                    ErrorKind::Format,
                    header_fault(header),
                    None,
                ),
            },
    {
        let record = match header {
            Some(record) => record,
            None => {
                return Err(Error::new("invalid header record"));
            },
        };
        let fields = match record.header {
            Some(fields) => fields,
            None => {
                return Err(Error::new("missing header"));
            },
        };
        let iv = match fields.iv {
            Some(iv) => iv,
            None => {
                return Err(Error::new("missing iv"));
            },
        };
        if iv.len() != IV_SIZE {
            return Err(Error::new("invalid iv length"));
        }
        let salt = match fields.salt {
            Some(salt) => salt,
            None => Vec::new(),
        };
        let keys = KeyMaterial::derive(password, salt.as_slice());
        BackupFile::with_keys(iv.as_slice(), &keys, stream)
    }

    /// Reads the next frame and returns its plaintext. The tag is checked
    /// before anything is decrypted; a frame that is refused is neither
    /// decrypted nor taken off the stream, and closes the decoder.
    pub fn next_frame(&mut self) -> (r: Result<Vec<u8>, Error>)
        requires
            old(self).wf(),
        ensures
            final(self).wf(),
            reports(r, old(self)@.outcome(), old(self)@.frames),
            final(self)@ == old(self)@.after_frame(),
    {
        let index: usize = self.frames_read;
        match self.phase {
            Phase::Ended | Phase::Failed => {
                return Err(Error::new("no more frames"));
            },
            _ => {},
        }
        let body = match self.cursor.peek_region() {
            Ok(body) => body,
            Err(e) => {
                self.phase = Phase::Failed;
                return Err(e.at_frame(index));
            },
        };
        let size: usize = LENGTH_SIZE + body.len();
        let (ciphertext, tag) = match split_frame(body) {
            Ok(parts) => parts,
            Err(e) => {
                self.phase = Phase::Failed;
                return Err(e.at_frame(index));
            },
        };
        match verify(ciphertext, tag, self.mac_key.as_slice()) {
            Ok(_) => {},
            Err(e) => {
                self.phase = Phase::Failed;
                return Err(e.at_frame(index));
            },
        }
        let plaintext = self.cipher.decrypt_frame(ciphertext);
        let _ = self.cursor.skip(size);
        self.frames_read = index + 1;
        self.phase = Phase::Streaming;
        Ok(plaintext)
    }

    /// Takes the caller's report on the record of the frame read last:
    /// the decoded record, or `None` where the plaintext did not decode.
    /// A record that marks the end closes the decoder; a plaintext that
    /// did not decode fails it. The record is handed back. A decoder that
    /// is not streaming awaits no record, refuses the report and stays as
    /// it is.
    pub fn finish_frame(&mut self, record: Option<BackupFrame>) -> (r: Result<BackupFrame, Error>)
        requires
            old(self).wf(),
        ensures
            final(self).wf(),
            final(self)@ == old(self)@.after_record(end_mark(record)),
            match r {
                Ok(frame) => old(self)@.phase == Phase::Streaming && record == Some(frame),
                Err(e) => if old(self)@.phase == Phase::Streaming {
                    record is None && e.holds(
                        ErrorKind::Format,
                        "invalid record",
                        Some((old(self)@.frames - 1) as usize),
                    )
                } else {
                    e.holds(ErrorKind::Format, "no frame awaits a record", None)
                },
            },
    {
        match self.phase {
            Phase::Streaming => {},
            _ => {
                return Err(Error::new("no frame awaits a record"));
            },
        }
        match record {
            None => {
                self.phase = Phase::Failed;
                Err(Error::new("invalid record").at_frame(self.frames_read - 1))
            },
            Some(frame) => {
                match frame.end {
                    Some(true) => {
                        self.phase = Phase::Ended;
                    },
                    _ => {},
                }
                Ok(frame)
            },
        }
    }

    /// Where the decoder stands.
    pub fn phase(&self) -> (phase: Phase)
        ensures
            phase == self@.phase,
    {
        self.phase
    }

    /// Number of frames read so far.
    pub fn frames_read(&self) -> (frames: usize)
        ensures
            frames == self@.frames,
    {
        self.frames_read
    }

    /// Number of bytes of the stream not read yet.
    pub fn remaining(&self) -> (n: usize)
        ensures
            n == self@.stream.len(),
    {
        self.cursor.remaining()
    }

    /// The counter of the next frame.
    pub fn counter(&self) -> (counter: u32)
        ensures
            counter == self@.cipher.counter,
    {
        self.cipher.counter()
    }

    /// The counter block of the frame read last, or of the header where
    /// no frame has been read yet.
    pub fn iv(&self) -> (iv: &[u8])
        ensures
            iv@ == self@.cipher.iv,
            iv@.len() == IV_SIZE,
    {
        self.cipher.iv()
    }
}

/// The phase after one more authentic frame whose record decodes, with
/// `end` telling whether that record marks the end.
pub open spec fn phase_after_record(phase: Phase, end: bool) -> Phase {
    if phase == Phase::Ended || phase == Phase::Failed {
        phase
    } else if end {
        Phase::Ended
    } else {
        Phase::Streaming
    }
}

/// The phase after a run of authentic frames whose records decode;
/// `ends` tells of each record, in order, whether it marks the end.
pub open spec fn phase_after_records(phase: Phase, ends: Seq<bool>) -> Phase
    decreases ends.len(),
{
    if ends.len() == 0 {
        phase
    } else {
        phase_after_record(phase_after_records(phase, ends.drop_last()), ends.last())
    }
}

proof fn lemma_framed_outcome(d: DecoderState, ciphertext: Seq<u8>, tag: Seq<u8>, rest: Seq<u8>)
    requires
        d.is_open(),
        tag.len() == TAG_SIZE,
        ciphertext.len() + TAG_SIZE <= u32::MAX,
        d.stream == framed(ciphertext, tag) + rest,
    ensures
        has_region(d.stream),
        frame_ciphertext(region(d.stream)) == ciphertext,
        frame_tag(region(d.stream)) == tag,
        after_region(d.stream) == rest,
        d.outcome() == if authentic(d.mac_key, ciphertext, tag) {
            Outcome::Plain(d.cipher.apply(ciphertext))
        } else {
            Outcome::BadTag
        },
{
    let size = (ciphertext.len() + TAG_SIZE) as u32;
    let prefix = be_bytes(size);
    lemma_be_value_of_be_bytes(size);
    assert(d.stream[0] == prefix[0] && d.stream[1] == prefix[1] && d.stream[2] == prefix[2]
        && d.stream[3] == prefix[3]);
    assert(be_value(d.stream) == size);
    let body = region(d.stream);
    assert(body =~= ciphertext + tag);
    assert(frame_ciphertext(body) =~= ciphertext);
    assert(frame_tag(body) =~= tag);
    assert(after_region(d.stream) =~= rest);
}

/// A frame sealed for a decoder is read by it: where the stream of an
/// open decoder starts with the frame that holds `plaintext` for its
/// cipher state and MAC key, the read returns `plaintext`, byte for byte,
/// takes exactly that frame off the stream and moves the cipher on by one
/// frame.
pub proof fn lemma_sealed_frame_is_read(d: DecoderState, plaintext: Seq<u8>, rest: Seq<u8>)
    requires
        d.is_open(),
        plaintext.len() + TAG_SIZE <= u32::MAX,
        d.stream == sealed_frame(d.cipher, d.mac_key, plaintext) + rest,
    ensures
        d.outcome() == Outcome::Plain(plaintext),
        d.after_frame() == (DecoderState {
            stream: rest,
            cipher: d.cipher.next(),
            mac_key: d.mac_key,
            phase: Phase::Streaming,
            frames: d.frames + 1,
        }),
{
    let ciphertext = d.cipher.apply(plaintext);
    lemma_apply_twice_is_identity(d.cipher, plaintext);
    lemma_framed_outcome(d, ciphertext, expected_tag(d.mac_key, ciphertext), rest);
}

/// A frame whose tag has one bit changed is refused: where `tag` is the
/// tag that `ciphertext` must carry and the stream of an open decoder
/// starts with the frame of `ciphertext` and of `tag` with any one bit
/// flipped, the read reports a failed authentication, decrypts nothing
/// and changes nothing but the phase, which becomes `Failed`.
pub proof fn lemma_flipped_tag_is_refused(
    d: DecoderState,
    ciphertext: Seq<u8>,
    tag: Seq<u8>,
    bit: nat,
    rest: Seq<u8>,
)
    requires
        d.is_open(),
        ciphertext.len() + TAG_SIZE <= u32::MAX,
        authentic(d.mac_key, ciphertext, tag),
        bit < 8 * TAG_SIZE,
        d.stream == framed(ciphertext, flip_bit(tag, bit)) + rest,
    ensures
        d.outcome() == Outcome::BadTag,
        d.after_frame() == (DecoderState { phase: Phase::Failed, ..d }),
{
    lemma_flipped_bit_differs(tag, bit);
    lemma_framed_outcome(d, ciphertext, flip_bit(tag, bit), rest);
}

/// A frame whose ciphertext has one bit changed is refused, unless the
/// changed ciphertext happens to have a code with the same first ten
/// bytes: where `tag` is the tag that `ciphertext` must carry, the stream
/// of an open decoder starts with the frame of `tag` and of `ciphertext`
/// with any one bit flipped, and the flipped ciphertext must carry another
/// tag, the read reports a failed authentication, decrypts nothing and
/// changes nothing but the phase, which becomes `Failed`.
pub proof fn lemma_flipped_ciphertext_is_refused(
    d: DecoderState,
    ciphertext: Seq<u8>,
    tag: Seq<u8>,
    bit: nat,
    rest: Seq<u8>,
)
    requires
        d.is_open(),
        ciphertext.len() + TAG_SIZE <= u32::MAX,
        authentic(d.mac_key, ciphertext, tag),
        bit < 8 * ciphertext.len(),
        expected_tag(d.mac_key, flip_bit(ciphertext, bit)) != expected_tag(d.mac_key, ciphertext),
        d.stream == framed(flip_bit(ciphertext, bit), tag) + rest,
    ensures
        d.outcome() == Outcome::BadTag,
        d.after_frame() == (DecoderState { phase: Phase::Failed, ..d }),
{
    lemma_flipped_bit_differs(ciphertext, bit);
    lemma_framed_outcome(d, flip_bit(ciphertext, bit), tag, rest);
}

/// A decoder with other keys refuses the first frame: where a decoder
/// reads the frame at the start of a stream, a second open decoder on the
/// same stream whose MAC key gives the frame's ciphertext another tag
/// reports a failed authentication and fails.
pub proof fn lemma_other_keys_are_refused(d: DecoderState, other: DecoderState)
    requires
        d.is_open(),
        other.is_open(),
        other.stream == d.stream,
        d.outcome() is Plain,
        expected_tag(other.mac_key, frame_ciphertext(region(d.stream))) != expected_tag(
            d.mac_key,
            frame_ciphertext(region(d.stream)),
        ),
    ensures
        other.outcome() == Outcome::BadTag,
        other.after_frame() == (DecoderState { phase: Phase::Failed, ..other }),
{
}

impl DecoderState {
    /// The state after `reads` attempts to read a frame.
    pub open spec fn after_frames(self, reads: nat) -> DecoderState
        decreases reads,
    {
        if reads == 0 {
            self
        } else {
            self.after_frames((reads - 1) as nat).after_frame()
        }
    }

    /// Whether each of the next `reads` attempts to read a frame finds an
    /// authentic one.
    pub open spec fn reads_succeed(self, reads: nat) -> bool
        decreases reads,
    {
        reads == 0 || (self.reads_succeed((reads - 1) as nat) && self.after_frames(
            (reads - 1) as nat,
        ).outcome() is Plain)
    }
}

/// Across successive reads that succeed the cipher moves on frame by
/// frame: after `reads` of them the decoder has counted `reads` frames
/// more, its cipher is in the state after as many frames, and the read
/// with index `reads` decrypts with the counter block of that state.
pub proof fn lemma_cipher_follows_reads(d: DecoderState, reads: nat)
    requires
        d.reads_succeed(reads),
    ensures
        d.after_frames(reads).cipher == d.cipher.after(reads),
        d.after_frames(reads).mac_key == d.mac_key,
        d.after_frames(reads).frames == d.frames + reads,
        reads > 0 ==> d.after_frames(reads).phase == Phase::Streaming,
    decreases reads,
{
    if reads > 0 {
        lemma_cipher_follows_reads(d, (reads - 1) as nat);
    }
}

/// A wrong passphrase fails the first frame: where the decoder opened
/// with `password` reads the first frame of a stream, the decoder opened
/// on the same header and stream with `wrong` reports a failed
/// authentication and fails, unless the MAC key of `wrong` happens to give
/// the frame's ciphertext the same tag. That it does where the two
/// passphrases are hashed as the same bytes.
pub proof fn lemma_wrong_password_is_refused(
    password: Seq<char>,
    wrong: Seq<char>,
    salt: Seq<u8>,
    iv: Seq<u8>,
    stream: Seq<u8>,
)
    requires
        opened(derived_keys(password, salt), iv, stream).outcome() is Plain,
        expected_tag(derived_keys(wrong, salt).mac_key, frame_ciphertext(region(stream)))
            != expected_tag(
            derived_keys(password, salt).mac_key,
            frame_ciphertext(region(stream)),
        ),
    ensures
        opened(derived_keys(wrong, salt), iv, stream).outcome() == Outcome::BadTag,
        opened(derived_keys(wrong, salt), iv, stream).after_frame().phase == Phase::Failed,
{
    lemma_other_keys_are_refused(
        opened(derived_keys(password, salt), iv, stream),
        opened(derived_keys(wrong, salt), iv, stream),
    );
}

/// A decoder that has ended or failed reads nothing: the read reports
/// that it is closed and leaves stream, cipher, phase and count as they
/// are, and no report on a record changes it.
pub proof fn lemma_closed_stays_closed(d: DecoderState, end: Option<bool>)
    requires
        !d.is_open(),
    ensures
        d.outcome() == Outcome::Closed,
        d.after_frame() == d,
        d.after_record(end) == d,
{
}

/// Reading an authentic frame and reporting its decoded record moves the
/// phase as `phase_after_record` says.
pub proof fn lemma_frame_and_record_move_phase(d: DecoderState, end: bool)
    requires
        d.is_open(),
        d.outcome() is Plain,
    ensures
        d.after_frame().after_record(Some(end)).phase == phase_after_record(d.phase, end),
{
}

/// A backup ends once, on the first record that marks the end. Take a
/// run of authentic frames whose records decode, from a decoder that has
/// just been opened, and let the record with index `first` be the first
/// to mark the end. Then the decoder is still reading after each of the
/// records before it, has ended after it, and has ended after every
/// later one.
pub proof fn lemma_ends_on_first_end_mark(ends: Seq<bool>, first: int)
    requires
        0 <= first < ends.len(),
        ends[first],
        forall|i: int| 0 <= i < first ==> !ends[i],
    ensures
        forall|n: int|
            0 <= n <= first ==> {
                let phase = #[trigger] phase_after_records(Phase::HeaderParsed, ends.take(n));
                phase == Phase::HeaderParsed || phase == Phase::Streaming
            },
        forall|n: int|
            first < n <= ends.len() ==> #[trigger] phase_after_records(
                Phase::HeaderParsed,
                ends.take(n),
            ) == Phase::Ended,
{
    assert forall|n: int| 0 <= n <= ends.len() implies {
        let phase = #[trigger] phase_after_records(Phase::HeaderParsed, ends.take(n));
        if n <= first {
            phase == Phase::HeaderParsed || phase == Phase::Streaming
        } else {
            phase == Phase::Ended
        }
    } by {
        lemma_phase_of_prefix(ends, first, n);
    }
}

proof fn lemma_phase_of_prefix(ends: Seq<bool>, first: int, n: int)
    requires
        0 <= first < ends.len(),
        ends[first],
        forall|i: int| 0 <= i < first ==> !ends[i],
        0 <= n <= ends.len(),
    ensures
        ({
            let phase = phase_after_records(Phase::HeaderParsed, ends.take(n));
            if n <= first {
                phase == Phase::HeaderParsed || phase == Phase::Streaming
            } else {
                phase == Phase::Ended
            }
        }),
    decreases n,
{
    if n > 0 {
        lemma_phase_of_prefix(ends, first, n - 1);
        assert(ends.take(n).drop_last() =~= ends.take(n - 1));
        assert(ends.take(n).last() == ends[n - 1]);
    }
}

} // verus!
