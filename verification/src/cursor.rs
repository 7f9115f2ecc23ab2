//! A byte cursor: an owned byte buffer plus a read position. Every decode
//! operation advances the position and fails if a requested read would pass
//! the end; the position never exceeds the backing length.

use vstd::prelude::*;
use crate::error::BufReadError;

verus! {

/// An owned byte buffer with a read position.
///
/// All decoding in this crate consumes bytes through one of these. The
/// invariant [`McCursor::wf`] (position within bounds) is established by the
/// constructor and preserved by every read operation.
pub struct McCursor {
    data: Vec<u8>,
    pos: usize,
}

impl McCursor {
    /// The backing bytes, as a sequence.
    pub closed spec fn all_bytes(&self) -> Seq<u8> {
        self.data@
    }

    /// The current read position.
    pub closed spec fn position(&self) -> int {
        self.pos as int
    }

    /// The bytes not yet consumed.
    pub open spec fn remaining(&self) -> Seq<u8> {
        self.all_bytes().skip(self.position())
    }

    /// Well-formedness: the position never exceeds the backing length.
    pub open spec fn wf(&self) -> bool {
        0 <= self.position() <= self.all_bytes().len()
    }

    pub fn new(data: Vec<u8>) -> (c: Self)
        ensures
            c.wf(),
            c.all_bytes() == data@,
            c.position() == 0,
    {
        McCursor { data, pos: 0 }
    }

    /// How many bytes are still available.
    pub fn remaining_len(&self) -> (n: usize)
        requires
            self.wf(),
        ensures
            n == self.remaining().len(),
    {
        self.data.len() - self.pos
    }

    /// The current read position.
    pub fn pos(&self) -> (p: usize)
        ensures
            p == self.position(),
    {
        self.pos
    }

    /// Read one byte and advance.
    pub fn take_byte(&mut self) -> (r: Result<u8, BufReadError>)
        requires
            old(self).wf(),
        ensures
            final(self).wf(),
            final(self).all_bytes() == old(self).all_bytes(),
            match r {
                Ok(b) => {
                    &&& old(self).remaining().len() >= 1
                    &&& b == old(self).remaining()[0]
                    &&& final(self).position() == old(self).position() + 1
                },
                Err(e) => {
                    &&& old(self).remaining().len() == 0
                    &&& e == (BufReadError::UnexpectedEof { attempted_read: 1usize, actual_read: 0usize })
                    &&& final(self).position() == old(self).position()
                },
            },
    {
        if self.pos < self.data.len() {
            let b = self.data[self.pos];
            self.pos = self.pos + 1;
            Ok(b)
        } else {
            Err(BufReadError::UnexpectedEof { attempted_read: 1, actual_read: 0 })
        }
    }

    /// Read exactly `length` bytes and advance; fails without moving if
    /// fewer are available, reporting attempted and available counts.
    pub fn take_bytes(&mut self, length: usize) -> (r: Result<Vec<u8>, BufReadError>)
        requires
            old(self).wf(),
        ensures
            final(self).wf(),
            final(self).all_bytes() == old(self).all_bytes(),
            match r {
                Ok(v) => {
                    &&& length <= old(self).remaining().len()
                    &&& v@ == old(self).remaining().take(length as int)
                    &&& final(self).position() == old(self).position() + length
                },
                Err(e) => {
                    &&& length > old(self).remaining().len()
                    &&& e == (BufReadError::UnexpectedEof {
                        attempted_read: length,
                        actual_read: (old(self).remaining().len() as usize),
                    })
                    &&& final(self).position() == old(self).position()
                },
            },
    {
        let avail = self.data.len() - self.pos;
        if length > avail {
            return Err(BufReadError::UnexpectedEof { attempted_read: length, actual_read: avail });
        }
        let mut out: Vec<u8> = Vec::new();
        let mut i: usize = 0;
        while i < length
            invariant
                self.wf(),
                self.data@ == old(self).data@,
                self.pos == old(self).pos + i,
                i <= length,
                length <= self.data@.len() - old(self).pos,
                self.data@.len() <= usize::MAX,
                out@ =~= old(self).remaining().take(i as int),
            decreases length - i,
        {
            out.push(self.data[self.pos]);
            self.pos = self.pos + 1;
            i = i + 1;
        }
        assert(out@ =~= old(self).remaining().take(length as int));
        Ok(out)
    }
}

} // verus!
