//! The error a failed decode ends with.

use vstd::prelude::*;

verus! {

/// The class of a failure.
#[derive(Clone, Copy, Debug, PartialEq, Eq, Structural)]
pub enum ErrorKind {
    /// The bytes do not have the shape of a backup: a length prefix that
    /// points past the end, a header without its fields, a record that
    /// does not decode.
    Format,
    /// A frame's tag is not the code of its ciphertext.
    Authentication,
}

/// A terminal failure: its class, a fixed message, and the index of the
/// frame it occurred at, counted from zero, where there is one.
#[derive(Clone, Copy, Debug)]
pub struct Error {
    pub kind: ErrorKind,
    pub message: &'static str,
    pub frame: Option<usize>,
}

impl Error {
    /// Whether this is a failure of class `kind` with the text `message`
    /// at `frame`.
    pub open spec fn holds(self, kind: ErrorKind, message: &str, frame: Option<usize>) -> bool {
        &&& self.kind == kind
        &&& self.message@ == message@
        &&& self.frame == frame
    }

    /// A format error with the message `s`, tied to no frame.
    pub fn new(s: &'static str) -> (e: Error)
        ensures
            e.holds(ErrorKind::Format, s, None),
    {
        Error { kind: ErrorKind::Format, message: s, frame: None }
    }

    /// The error for a tag that does not match, tied to no frame.
    pub fn authentication() -> (e: Error)
        ensures
            e.holds(ErrorKind::Authentication, "frame authentication failed", None),
    {
        Error { kind: ErrorKind::Authentication, message: "frame authentication failed", frame: None }
    }

    /// The same error, tied to the frame with index `index`.
    pub fn at_frame(self, index: usize) -> (e: Error)
        ensures
            e.holds(self.kind, self.message, Some(index)),
    {
        Error { kind: self.kind, message: self.message, frame: Some(index) }
    }

    /// The class of the failure.
    pub fn kind(&self) -> (kind: ErrorKind)
        ensures
            kind == self.kind,
    {
        self.kind
    }

    /// The message of the failure.
    pub fn message(&self) -> (message: &'static str)
        ensures
            message@ == self.message@,
    {
        self.message
    }

    /// The index of the frame the failure occurred at, if it occurred at one.
    pub fn frame(&self) -> (frame: Option<usize>)
        ensures
            frame == self.frame,
    {
        self.frame
    }
}

} // verus!
