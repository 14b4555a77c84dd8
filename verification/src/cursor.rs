//! A forward-only reader over a byte buffer.

use crate::error::ParseError;
use vstd::prelude::*;

verus! {

/// A position in a borrowed byte buffer that only ever moves forward.
///
/// To a contract a cursor is the bytes it has not handed out yet: its view.
/// Reading consumes a prefix of the view and nothing can put it back.
pub struct ByteCursor<'a> {
    bytes: &'a [u8],
    pos: usize,
}

impl<'a> View for ByteCursor<'a> {
    type V = Seq<u8>;

    /// The bytes that are still to be read.
    closed spec fn view(&self) -> Seq<u8> {
        self.bytes@.skip(self.pos as int)
    }
}

impl<'a> ByteCursor<'a> {
    #[verifier::type_invariant]
    spec fn within_buffer(self) -> bool {
        self.pos <= self.bytes@.len()
    }

    /// The whole buffer, read or not.
    pub closed spec fn buffer(self) -> Seq<u8> {
        self.bytes@
    }

    /// How many bytes of the buffer have been consumed.
    pub closed spec fn consumed(self) -> nat {
        self.pos as nat
    }

    /// Whether `self` is `earlier` after `n` more bytes were consumed.
    pub open spec fn is_after(self, earlier: Self, n: int) -> bool {
        &&& 0 <= n <= earlier@.len()
        &&& self.buffer() == earlier.buffer()
        &&& self.consumed() == earlier.consumed() + n
        &&& self@ == earlier@.skip(n)
    }

    /// Whether `self` can be reached from `earlier` by reading alone.
    pub open spec fn is_ahead_of(self, earlier: Self) -> bool {
        exists|n: int| self.is_after(earlier, n)
    }

    /// A cursor is ahead of itself, by no bytes.
    pub proof fn lemma_ahead_of_itself(self)
        ensures
            self.is_after(self, 0),
            self.is_ahead_of(self),
    {
        assert(self@ =~= self@.skip(0));
        assert(self.is_after(self, 0));
    }

    /// Reading on from a later position adds up.
    pub proof fn lemma_after_after(self, middle: Self, earlier: Self, n: int, m: int)
        requires
            middle.is_after(earlier, n),
            self.is_after(middle, m),
        ensures
            self.is_after(earlier, n + m),
            self.is_ahead_of(earlier),
    {
        assert(self@ =~= earlier@.skip(n + m));
        assert(self.is_after(earlier, n + m));
    }

    /// Being ahead carries over from one position to a later one.
    pub proof fn lemma_ahead_of_ahead(self, middle: Self, earlier: Self)
        requires
            middle.is_ahead_of(earlier),
            self.is_ahead_of(middle),
        ensures
            self.is_ahead_of(earlier),
    {
        let n = choose|n: int| middle.is_after(earlier, n);
        let m = choose|m: int| self.is_after(middle, m);
        self.lemma_after_after(middle, earlier, n, m);
    }

    /// A cursor at the first byte of `bytes`.
    pub fn new(bytes: &'a [u8]) -> (cursor: Self)
        ensures
            cursor@ == bytes@,
            cursor.buffer() == bytes@,
            cursor.consumed() == 0,
    {
        ByteCursor { bytes, pos: 0 }
    }

    /// The number of bytes consumed so far.
    pub fn position(&self) -> (pos: usize)
        ensures
            pos == self.consumed(),
    {
        self.pos
    }

    /// The number of bytes still to be read.
    pub fn remaining(&self) -> (n: usize)
        ensures
            n == self@.len(),
    {
        proof {
            use_type_invariant(self);
        }
        self.bytes.len() - self.pos
    }

    /// Hands out the next `n` bytes and moves past them. With fewer than `n`
    /// bytes left the cursor stays where it is.
    pub fn read_exact(&mut self, n: usize) -> (r: Result<&'a [u8], ParseError>)
        ensures
            match r {
                Ok(bytes) => n <= old(self)@.len() && bytes@ == old(self)@.take(n as int)
                    && final(self).is_after(*old(self), n as int),
                Err(e) => n > old(self)@.len() && e == ParseError::Truncated && *final(self)
                    == *old(self),
            },
    {
        proof {
            use_type_invariant(&*self);
        }
        if n > self.bytes.len() - self.pos {
            return Err(ParseError::Truncated);
        }
        let start = self.pos;
        let end = start + n;
        let out = &self.bytes[start..end];
        self.pos = end;
        proof {
            assert(out@ =~= old(self)@.take(n as int));
            assert(self@ =~= old(self)@.skip(n as int));
        }
        Ok(out)
    }

    /// Moves past the next `n` bytes without looking at them. With fewer
    /// than `n` bytes left the cursor stays where it is.
    pub fn consume(&mut self, n: usize) -> (r: Result<(), ParseError>)
        ensures
            match r {
                Ok(_) => n <= old(self)@.len() && final(self).is_after(*old(self), n as int),
                Err(e) => n > old(self)@.len() && e == ParseError::Truncated && *final(self)
                    == *old(self),
            },
    {
        match self.read_exact(n) {
            Ok(_) => Ok(()),
            Err(e) => Err(e),
        }
    }

    /// Hands out the next four bytes as an array and moves past them. With
    /// fewer than four bytes left the cursor stays where it is.
    pub fn read_word(&mut self) -> (r: Result<[u8; 4], ParseError>)
        ensures
            match r {
                Ok(word) => 4 <= old(self)@.len() && word@ == old(self)@.take(4)
                    && final(self).is_after(*old(self), 4),
                Err(e) => 4 > old(self)@.len() && e == ParseError::Truncated && *final(self)
                    == *old(self),
            },
    {
        match self.read_exact(4) {
            Ok(s) => {
                let word: [u8; 4] = [s[0], s[1], s[2], s[3]];
                proof {
                    assert(word@ =~= old(self)@.take(4));
                }
                Ok(word)
            },
            Err(e) => Err(e),
        }
    }
}

} // verus!
