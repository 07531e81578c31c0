//! The glTF loader's verified surface: the strided accessor window over a
//! byte buffer.
//!
//! Decoding the JSON/binary container itself is left to the embedding
//! application; what the library owns is the accessor arithmetic, which
//! slices elements of a fixed size out of an interleaved buffer without ever
//! reading past it.

use vstd::prelude::*;

verus! {

/// Loader for the glTF format.
pub struct LoaderGLTF {}

impl LoaderGLTF {
    /// Returns a new glTF loader.
    pub fn new() -> (r: Self) {
        Self {  }
    }
}

/// An iterator over the elements of a glTF accessor: a byte window of a
/// fixed element size advancing over an interleaved buffer with a stride.
pub struct AccessorIterator<'a> {
    buffer: &'a [u8],
    element_size: usize,
    offset: usize,
    stride: usize,
    count: usize,
    index: usize,
}

impl<'a> AccessorIterator<'a> {
    /// The bytes the iterator ranges over.
    pub closed spec fn spec_buffer(&self) -> Seq<u8> {
        self.buffer@
    }

    /// The size of one element in bytes.
    pub closed spec fn spec_element_size(&self) -> int {
        self.element_size as int
    }

    /// The position of the next element to yield.
    pub closed spec fn spec_index(&self) -> int {
        self.index as int
    }

    /// How many elements the accessor holds.
    pub closed spec fn spec_count(&self) -> int {
        self.count as int
    }

    /// The byte position of the element at the given position.
    pub closed spec fn spec_element_start(&self, i: int) -> int {
        self.offset + i * self.stride
    }

    /// Returns a new accessor iterator.
    ///
    /// A stride of zero means tightly packed elements; the offset is the sum
    /// of the accessor's and the buffer view's offsets.
    pub fn new(
        buffer: &'a [u8],
        count: usize,
        buffer_stride: usize,
        element_size: usize,
        accessor_offset: usize,
        buffer_offset: usize,
    ) -> (r: Self)
        requires
            accessor_offset + buffer_offset <= usize::MAX,
        ensures
            r.spec_buffer() == buffer@,
            r.spec_element_size() == element_size,
            r.spec_count() == count,
            r.spec_index() == 0,
    {
        let stride = if buffer_stride == 0 {
            element_size
        } else {
            buffer_stride
        };
        let offset = buffer_offset + accessor_offset;
        Self { buffer, element_size, offset, stride, count, index: 0 }
    }

    /// Returns the bytes of the next element, or `None` exactly when all
    /// elements are yielded or the next element would reach past the buffer.
    pub fn next(&mut self) -> (r: Option<Vec<u8>>)
        ensures
            final(self).spec_buffer() == old(self).spec_buffer(),
            final(self).spec_count() == old(self).spec_count(),
            final(self).spec_element_size() == old(self).spec_element_size(),
            r is Some <==> old(self).spec_index() < old(self).spec_count() && old(
                self
            ).spec_element_start(old(self).spec_index()) + old(self).spec_element_size() <= old(
                self
            ).spec_buffer().len(),
            match r {
                Some(bytes) => {
                    &&& final(self).spec_index() == old(self).spec_index() + 1
                    &&& bytes@ == old(self).spec_buffer().subrange(
                        old(self).spec_element_start(old(self).spec_index()),
                        old(self).spec_element_start(old(self).spec_index()) + old(
                            self
                        ).spec_element_size(),
                    )
                },
                None => final(self).spec_index() == old(self).spec_index(),
            },
    {
        let buffer_len = self.buffer.len();
        if self.index >= self.count {
            return None;
        }
        if self.stride != 0 && self.index > (usize::MAX - self.offset) / self.stride {
            // The element would start beyond the addressable range, which is
            // past the buffer in any case.
            proof {
                assert((self.index as int) * self.stride >= ((usize::MAX - self.offset) as int
                    / self.stride as int + 1) * self.stride) by (nonlinear_arith)
                    requires
                        self.stride >= 1,
                        self.index as int >= (usize::MAX - self.offset) as int
                            / self.stride as int + 1,
                ;
                assert(((usize::MAX - self.offset) as int / self.stride as int + 1)
                    * self.stride > (usize::MAX - self.offset) as int) by (nonlinear_arith)
                    requires
                        self.stride >= 1,
                ;
                assert(self.spec_element_start(self.spec_index()) > usize::MAX);
            }
            return None;
        }
        proof {
            if self.stride != 0 {
                assert((self.index as int) * self.stride <= ((usize::MAX - self.offset) as int
                    / self.stride as int) * self.stride) by (nonlinear_arith)
                    requires
                        self.stride >= 1,
                        0 <= self.index as int <= (usize::MAX - self.offset) as int
                            / self.stride as int,
                ;
                assert(((usize::MAX - self.offset) as int / self.stride as int) * self.stride <= (
                usize::MAX - self.offset) as int) by (nonlinear_arith)
                    requires
                        self.stride >= 1,
                ;
            } else {
                assert((self.index as int) * (self.stride as int) == 0) by (nonlinear_arith)
                    requires
                        self.stride == 0,
                ;
            }
        }
        let pos = self.offset + self.index * self.stride;
        if pos > self.buffer.len() || self.buffer.len() - pos < self.element_size {
            return None;
        }
        let mut bytes: Vec<u8> = Vec::new();
        let mut i: usize = 0;
        while i < self.element_size
            invariant
                0 <= i <= self.element_size,
                pos + self.element_size <= self.buffer@.len(),
                pos + self.element_size <= usize::MAX,
                bytes@ =~= self.buffer@.subrange(pos as int, pos + i),
            decreases self.element_size - i,
        {
            bytes.push(self.buffer[pos + i]);
            proof {
                assert(bytes@ =~= self.buffer@.subrange(pos as int, pos + i + 1));
            }
            i = i + 1;
        }
        self.index = self.index + 1;
        Some(bytes)
    }
}

} // verus!
