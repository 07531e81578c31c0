//! A cursor over the raw input bytes, reading big-endian 32-bit words.

use vstd::prelude::*;

use crate::error::Error;

verus! {

/// The integer value of the big-endian 32-bit word starting at byte `pos`.
pub open spec fn be_word(data: Seq<u8>, pos: int) -> int
    recommends
        0 <= pos,
        pos + 4 <= data.len(),
{
    data[pos] * 0x100_0000 + data[pos + 1] * 0x1_0000 + data[pos + 2] * 0x100 + data[pos + 3]
}

/// Whether the words are the big-endian words encoded in `data` starting at
/// byte `pos`.
pub open spec fn words_match(ws: Seq<u32>, data: Seq<u8>, pos: int) -> bool {
    forall|i: int| 0 <= i < ws.len() ==> #[trigger] ws[i] == be_word(data, pos + 4 * i)
}

/// A reader over an owned byte buffer with a current position.
///
/// All reads either consume exactly the bytes they return or fail without
/// moving the position, so callers can state exactly which bytes a parse
/// step covered.
pub struct ByteReader {
    data: Vec<u8>,
    pos: usize,
}

impl ByteReader {
    /// The position never passes the end of the buffer.
    #[verifier::type_invariant]
    pub(crate) closed spec fn wf(&self) -> bool {
        self.pos <= self.data@.len()
    }

    /// The bytes the reader ranges over.
    pub closed spec fn spec_data(&self) -> Seq<u8> {
        self.data@
    }

    /// The current position.
    pub closed spec fn spec_pos(&self) -> int {
        self.pos as int
    }

    /// How many bytes are left from the current position.
    pub open spec fn spec_remaining(&self) -> int {
        self.spec_data().len() - self.spec_pos()
    }

    /// Returns a new reader over the given bytes, positioned at the start.
    pub fn new(data: Vec<u8>) -> (r: Self)
        ensures
            r.spec_data() == data@,
            r.spec_pos() == 0,
    {
        Self { data, pos: 0 }
    }

    /// Returns the current position, which never passes the end of the
    /// buffer.
    pub fn position(&self) -> (r: usize)
        ensures
            r == self.spec_pos(),
            self.spec_pos() <= self.spec_data().len(),
    {
        proof {
            use_type_invariant(self);
        }
        self.pos
    }

    /// Returns how many bytes are left from the current position.
    pub fn remaining(&self) -> (r: usize)
        ensures
            r == self.spec_remaining(),
    {
        proof {
            use_type_invariant(self);
        }
        self.data.len() - self.pos
    }

    /// Returns the total number of bytes the reader ranges over.
    pub fn len(&self) -> (r: usize)
        ensures
            r == self.spec_data().len(),
    {
        self.data.len()
    }

    /// Returns the byte at the given absolute position.
    pub fn byte_at(&self, i: usize) -> (r: u8)
        requires
            i < self.spec_data().len(),
        ensures
            r == self.spec_data()[i as int],
    {
        self.data[i]
    }

    /// Moves the position to the given absolute position.
    pub fn set_position(&mut self, p: usize)
        requires
            p <= old(self).spec_data().len(),
        ensures
            final(self).spec_data() == old(self).spec_data(),
            final(self).spec_pos() == p,
    {
        self.pos = p;
    }

    /// Advances the position by the given number of bytes.
    pub fn advance(&mut self, n: usize)
        requires
            old(self).spec_pos() + n <= old(self).spec_data().len(),
        ensures
            final(self).spec_data() == old(self).spec_data(),
            final(self).spec_pos() == old(self).spec_pos() + n,
    {
        // Reading the length brings its bound into scope for the addition.
        let _total = self.data.len();
        self.pos = self.pos + n;
    }

    /// Reads a 32-bit big-endian unsigned integer.
    ///
    /// On success the position moves past the four bytes read; when fewer
    /// than four bytes are left, an I/O error is returned and nothing is
    /// consumed.
    pub fn read_u32(&mut self) -> (r: Result<u32, Error>)
        ensures
            0 <= old(self).spec_pos(),
            final(self).spec_data() == old(self).spec_data(),
            r is Ok <==> old(self).spec_pos() + 4 <= old(self).spec_data().len(),
            match r {
                Ok(w) => w == be_word(old(self).spec_data(), old(self).spec_pos())
                    && final(self).spec_pos() == old(self).spec_pos() + 4,
                Err(e) => final(self).spec_pos() == old(self).spec_pos() && e.is_io(),
            },
    {
        if self.pos <= self.data.len() && self.data.len() - self.pos >= 4 {
            let b0 = self.data[self.pos] as u32;
            let b1 = self.data[self.pos + 1] as u32;
            let b2 = self.data[self.pos + 2] as u32;
            let b3 = self.data[self.pos + 3] as u32;
            self.pos = self.pos + 4;
            Ok(b0 * 0x100_0000 + b1 * 0x1_0000 + b2 * 0x100 + b3)
        } else {
            Err(Error::IO("unexpected end of stream".to_owned()))
        }
    }

    /// Reads the given number of bytes.
    ///
    /// On success the position moves past the bytes read; when fewer bytes
    /// are left, an I/O error is returned and nothing is consumed.
    pub fn read_bytes(&mut self, n: usize) -> (r: Result<Vec<u8>, Error>)
        ensures
            0 <= old(self).spec_pos(),
            final(self).spec_data() == old(self).spec_data(),
            r is Ok <==> old(self).spec_pos() + n <= old(self).spec_data().len(),
            match r {
                Ok(bytes) => bytes@ == old(self).spec_data().subrange(
                    old(self).spec_pos(),
                    old(self).spec_pos() + n,
                ) && final(self).spec_pos() == old(self).spec_pos() + n,
                Err(e) => final(self).spec_pos() == old(self).spec_pos() && e.is_io(),
            },
    {
        if self.pos <= self.data.len() && self.data.len() - self.pos >= n {
            let mut bytes: Vec<u8> = Vec::new();
            let mut i: usize = 0;
            while i < n
                invariant
                    0 <= i <= n,
                    self.pos + n <= self.data.len(),
                    bytes@ =~= self.data@.subrange(self.pos as int, self.pos + i),
                decreases n - i,
            {
                bytes.push(self.data[self.pos + i]);
                proof {
                    assert(bytes@ =~= self.data@.subrange(self.pos as int, self.pos + i + 1));
                }
                i = i + 1;
            }
            self.pos = self.pos + n;
            Ok(bytes)
        } else {
            Err(Error::IO("unexpected end of stream".to_owned()))
        }
    }

    /// Reads the given number of 32-bit big-endian words.
    ///
    /// On success the position moves past the words read; when fewer bytes
    /// are left, an I/O error is returned and nothing is consumed.
    pub fn read_words(&mut self, n: usize) -> (r: Result<Vec<u32>, Error>)
        ensures
            0 <= old(self).spec_pos(),
            final(self).spec_data() == old(self).spec_data(),
            r is Ok <==> old(self).spec_pos() + 4 * n <= old(self).spec_data().len(),
            match r {
                Ok(ws) => ws@.len() == n && words_match(ws@, old(self).spec_data(), old(self).spec_pos())
                    && final(self).spec_pos() == old(self).spec_pos() + 4 * n,
                Err(e) => final(self).spec_pos() == old(self).spec_pos() && e.is_io(),
            },
    {
        if self.pos <= self.data.len() && n <= (self.data.len() - self.pos) / 4 {
            proof {
                assert(4 * n <= 4 * ((self.data@.len() - self.pos as int) / 4));
                assert(4 * ((self.data@.len() - self.pos as int) / 4) <= self.data@.len()
                    - self.pos as int);
            }
            let mut ws: Vec<u32> = Vec::new();
            let mut i: usize = 0;
            let ghost start = self.spec_pos();
            while i < n
                invariant
                    0 <= i <= n,
                    self.spec_data() == old(self).spec_data(),
                    self.spec_pos() == start + 4 * i,
                    start + 4 * n <= self.spec_data().len(),
                    ws@.len() == i,
                    words_match(ws@, self.spec_data(), start),
                decreases n - i,
            {
                let w = match self.read_u32() {
                    Ok(w) => w,
                    Err(_) => {
                        proof {
                            assert(false);
                        }
                        return Err(Error::IO("unexpected end of stream".to_owned()));
                    },
                };
                ws.push(w);
                i = i + 1;
            }
            Ok(ws)
        } else {
            proof {
                if self.pos <= self.data.len() && self.spec_pos() + 4 * n
                    <= self.spec_data().len() {
                    assert(n <= (self.data@.len() - self.pos as int) / 4);
                }
            }
            Err(Error::IO("unexpected end of stream".to_owned()))
        }
    }

    /// Skips the given number of 32-bit words.
    ///
    /// On success the position moves past the words; when fewer bytes are
    /// left, an I/O error is returned and nothing is consumed.
    pub fn skip_words(&mut self, num_words: usize) -> (r: Result<(), Error>)
        ensures
            0 <= old(self).spec_pos(),
            final(self).spec_data() == old(self).spec_data(),
            r is Ok <==> old(self).spec_pos() + 4 * num_words <= old(self).spec_data().len(),
            match r {
                Ok(()) => final(self).spec_pos() == old(self).spec_pos() + 4 * num_words,
                Err(e) => final(self).spec_pos() == old(self).spec_pos() && e.is_io(),
            },
    {
        if self.pos <= self.data.len() && num_words <= (self.data.len() - self.pos) / 4 {
            self.pos = self.pos + 4 * num_words;
            Ok(())
        } else {
            Err(Error::IO("unexpected end of stream".to_owned()))
        }
    }
}

} // verus!
