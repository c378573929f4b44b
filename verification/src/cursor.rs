//! A reader that walks a backup's bytes from front to back and hands out
//! length-prefixed regions.
//!
//! A region is a big-endian `u32` length followed by that many bytes. All
//! arithmetic on offsets into the file happens here.

use vstd::prelude::*;
use vstd::slice::{slice_subrange, slice_to_vec};
use crate::error::{Error, ErrorKind};
use crate::util::{be_value, vec_as_u32};

verus! {

/// Number of bytes in a length prefix.
pub const LENGTH_SIZE: usize = 4;

/// Whether `s` starts with a whole region: a length prefix and as many
/// bytes after it as the prefix announces.
pub open spec fn has_region(s: Seq<u8>) -> bool {
    s.len() >= LENGTH_SIZE && LENGTH_SIZE + be_value(s) <= s.len()
}

/// The bytes of the region that `s` starts with, without the prefix.
pub open spec fn region(s: Seq<u8>) -> Seq<u8> {
    s.subrange(LENGTH_SIZE as int, LENGTH_SIZE + be_value(s))
}

/// What follows the region that `s` starts with.
pub open spec fn after_region(s: Seq<u8>) -> Seq<u8> {
    s.skip(LENGTH_SIZE + be_value(s))
}

/// A position in a buffer of bytes. Its view is what has not been read yet.
pub struct ByteCursor {
    bytes: Vec<u8>,
    position: usize,
}

impl View for ByteCursor {
    type V = Seq<u8>;

    closed spec fn view(&self) -> Seq<u8> {
        self.bytes@.skip(self.position as int)
    }
}

impl ByteCursor {
    #[verifier::type_invariant]
    spec fn in_bounds(self) -> bool {
        self.position <= self.bytes@.len()
    }

    /// Number of bytes read so far.
    pub closed spec fn consumed(&self) -> usize {
        self.position
    }

    /// A cursor at the start of `bytes`.
    pub fn new(bytes: Vec<u8>) -> (cursor: ByteCursor)
        ensures
            cursor@ == bytes@,
            cursor.consumed() == 0,
    {
        ByteCursor { bytes, position: 0 }
    }

    /// Number of bytes not read yet.
    pub fn remaining(&self) -> (n: usize)
        ensures
            n == self@.len(),
    {
        proof {
            use_type_invariant(self);
        }
        self.bytes.len() - self.position
    }

    /// Number of bytes read so far.
    pub fn position(&self) -> (n: usize)
        ensures
            n == self.consumed(),
            n + self@.len() <= usize::MAX,
    {
        proof {
            use_type_invariant(self);
            assert(self.bytes@.len() == self.bytes.len());
        }
        self.position
    }

    /// The next `n` bytes, left in place; `None` where fewer are left.
    pub fn peek(&self, n: usize) -> (next: Option<&[u8]>)
        ensures
            match next {
                Some(s) => n <= self@.len() && s@ == self@.take(n as int),
                None => n > self@.len(),
            },
    {
        proof {
            use_type_invariant(self);
        }
        if n > self.bytes.len() - self.position {
            return None;
        }
        let s = slice_subrange(self.bytes.as_slice(), self.position, self.position + n);
        assert(s@ =~= self@.take(n as int));
        Some(s)
    }

    /// Moves past the next `n` bytes, or stays put and fails where fewer
    /// are left.
    pub fn skip(&mut self, n: usize) -> (r: Result<(), Error>)
        ensures
            match r {
                Ok(_) => {
                    &&& n <= old(self)@.len()
                    &&& final(self)@ == old(self)@.skip(n as int)
                    &&& final(self).consumed() == old(self).consumed() + n
                },
                Err(e) => {
                    &&& n > old(self)@.len()
                    &&& e.holds(ErrorKind::Format, "unexpected end of data", None)
                    &&& final(self)@ == old(self)@
                    &&& final(self).consumed() == old(self).consumed()
                },
            },
    {
        proof {
            use_type_invariant(&*self);
        }
        if n > self.bytes.len() - self.position {
            return Err(Error::new("unexpected end of data"));
        }
        self.position = self.position + n;
        assert(self@ =~= old(self)@.skip(n as int));
        Ok(())
    }

    /// Reads exactly `n` bytes, or reads nothing and fails where fewer
    /// are left.
    pub fn read_exact(&mut self, n: usize) -> (r: Result<Vec<u8>, Error>)
        ensures
            match r {
                Ok(v) => {
                    &&& n <= old(self)@.len()
                    &&& v@ == old(self)@.take(n as int)
                    &&& final(self)@ == old(self)@.skip(n as int)
                    &&& final(self).consumed() == old(self).consumed() + n
                },
                Err(e) => {
                    &&& n > old(self)@.len()
                    &&& e.holds(ErrorKind::Format, "unexpected end of data", None)
                    &&& final(self)@ == old(self)@
                    &&& final(self).consumed() == old(self).consumed()
                },
            },
    {
        let taken = match self.peek(n) {
            Some(s) => slice_to_vec(s),
            None => {
                return Err(Error::new("unexpected end of data"));
            },
        };
        let _ = self.skip(n);
        Ok(taken)
    }

    /// The region the unread bytes start with, left in place. Fails where
    /// they do not start with a whole region.
    pub fn peek_region(&self) -> (r: Result<&[u8], Error>)
        ensures
            match r {
                Ok(s) => {
                    &&& has_region(self@)
                    &&& s@ == region(self@)
                    &&& LENGTH_SIZE + s@.len() <= usize::MAX
                },
                Err(e) => !has_region(self@) && e.holds(ErrorKind::Format, "truncated region", None),
            },
    {
        let prefix = match self.peek(LENGTH_SIZE) {
            Some(s) => s,
            None => {
                return Err(Error::new("truncated region"));
            },
        };
        let length: usize = vec_as_u32(prefix) as usize;
        assert(be_value(prefix@) == be_value(self@));
        if length > self.remaining() - LENGTH_SIZE {
            return Err(Error::new("truncated region"));
        }
        match self.peek(LENGTH_SIZE + length) {
            Some(s) => {
                let body = slice_subrange(s, LENGTH_SIZE, LENGTH_SIZE + length);
                assert(body@ =~= region(self@));
                Ok(body)
            },
            None => Err(Error::new("truncated region")),
        }
    }

    /// Reads a length-prefixed region: the prefix is dropped, the bytes it
    /// announces are returned. Where the unread bytes do not start with a
    /// whole region, nothing is read.
    pub fn read_region(&mut self) -> (r: Result<Vec<u8>, Error>)
        ensures
            match r {
                Ok(v) => {
                    &&& has_region(old(self)@)
                    &&& v@ == region(old(self)@)
                    &&& final(self)@ == after_region(old(self)@)
                    &&& final(self).consumed() == old(self).consumed() + LENGTH_SIZE + v@.len()
                },
                Err(e) => {
                    &&& !has_region(old(self)@)
                    &&& e.holds(ErrorKind::Format, "truncated region", None)
                    &&& final(self)@ == old(self)@
                    &&& final(self).consumed() == old(self).consumed()
                },
            },
    {
        let body = match self.peek_region() {
            Ok(s) => slice_to_vec(s),
            Err(e) => {
                return Err(e);
            },
        };
        proof {
            use_type_invariant(&*self);
            assert(LENGTH_SIZE + body@.len() <= self@.len() <= self.bytes.len());
        }
        let _ = self.skip(LENGTH_SIZE + body.len());
        Ok(body)
    }
}

} // verus!
