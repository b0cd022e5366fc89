//! A position-tracking view over an immutable byte sequence.

use vstd::prelude::*;

verus! {

/// The single failure of the decoder: a field reader asked for more bytes
/// than remain in the cursor.
#[derive(Clone, Copy, Debug, PartialEq, Eq, Structural)]
pub enum DecodeError {
    OutOfData,
}

/// A cursor over an immutable byte sequence. Bytes are consumed from the
/// front; the position only ever moves forward, and a read that asks for
/// more bytes than remain fails without moving it at all.
pub struct ByteCursor<'a> {
    bytes: &'a [u8],
    pos: usize,
}

impl<'a> ByteCursor<'a> {
    /// The whole underlying byte sequence, which no read ever changes.
    pub closed spec fn data(self) -> Seq<u8> {
        self.bytes@
    }

    /// How many bytes have been consumed so far.
    pub closed spec fn position(self) -> int {
        self.pos as int
    }

    /// The position never passes the end of the data.
    pub open spec fn wf(self) -> bool {
        0 <= self.position() <= self.data().len()
    }

    /// The bytes not yet consumed.
    pub open spec fn remaining(self) -> Seq<u8> {
        self.data().subrange(self.position(), self.data().len() as int)
    }

    /// A fresh cursor standing at the front of `bytes`.
    pub fn new(bytes: &'a [u8]) -> (c: ByteCursor<'a>)
        ensures
            c.wf(),
            c.data() == bytes@,
            c.position() == 0,
    {
        ByteCursor { bytes, pos: 0 }
    }

    /// How many bytes remain to be consumed.
    pub fn remaining_len(&self) -> (n: usize)
        requires
            self.wf(),
        ensures
            n == self.remaining().len(),
    {
        self.bytes.len() - self.pos
    }

    /// The next byte, left in place.
    pub(crate) fn peek(&self) -> (b: u8)
        requires
            self.wf(),
            self.remaining().len() >= 1,
        ensures
            b == self.remaining()[0],
    {
        self.bytes[self.pos]
    }

    /// Consume the next `n` bytes and return them. When fewer than `n`
    /// bytes remain the read fails and the cursor is left exactly as it
    /// was, so the caller can abort the whole decode cleanly.
    pub fn take(&mut self, n: usize) -> (r: Result<Vec<u8>, DecodeError>)
        requires
            old(self).wf(),
        ensures
            final(self).wf(),
            final(self).data() == old(self).data(),
            old(self).position() <= final(self).position(),
            r is Ok <==> n <= old(self).remaining().len(),
            r matches Ok(v) ==> {
                &&& v@ == old(self).remaining().subrange(0, n as int)
                &&& final(self).position() == old(self).position() + n
            },
            r matches Err(e) ==> {
                &&& e == DecodeError::OutOfData
                &&& final(self).position() == old(self).position()
            },
    {
        let len = self.bytes.len();
        if n > len - self.pos {
            return Err(DecodeError::OutOfData);
        }
        let mut v: Vec<u8> = Vec::new();
        let mut i: usize = 0;
        while i < n
            invariant
                *self == *old(self),
                self.wf(),
                n <= self.remaining().len(),
                self.pos + n <= len,
                len == self.bytes@.len(),
                i <= n,
                v@ == old(self).remaining().subrange(0, i as int),
            decreases n - i,
        {
            let b = self.bytes[self.pos + i];
            v.push(b);
            proof {
                assert(self.remaining().subrange(0, i + 1)
                    =~= self.remaining().subrange(0, i as int).push(b));
            }
            i = i + 1;
        }
        self.pos = self.pos + n;
        Ok(v)
    }
}

} // verus!
