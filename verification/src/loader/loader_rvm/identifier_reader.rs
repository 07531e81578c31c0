//! Recovery of the next valid section keyword from the raw byte stream.
//!
//! The reader inspects the bytes at its current position; whenever they do
//! not encode a valid keyword it discards exactly one leading byte and tries
//! again.  It therefore tolerates garbage of any length in front of a
//! keyword, and on success it consumes exactly through the keyword's last
//! byte.

use vstd::prelude::*;

use crate::error::Error;
use crate::loader::loader_rvm::identifier::Identifier;
use crate::loader::loader_rvm::identifier::chars3_are_end;
use crate::loader::loader_rvm::identifier::end_keyword_at;
use crate::loader::loader_rvm::identifier::is_valid_chars;
use crate::loader::loader_rvm::identifier::keyword4_at;
use crate::loader::loader_rvm::identifier::keyword_at;
use crate::loader::loader_rvm::identifier::keyword_chars_at;
use crate::loader::loader_rvm::identifier::keyword_end_at;
use crate::loader::loader_rvm::identifier::lemma_first_keyword_none;
use crate::loader::loader_rvm::identifier::lemma_first_keyword_some;
use crate::loader::loader_rvm::identifier::prefix3_zero;
use crate::loader::loader_rvm::identifier::spec_first_keyword;
use crate::loader::loader_rvm::identifier::word_prefix_zero;
use crate::loader::loader_rvm::reader::ByteReader;

verus! {

/// The identifier reader scans until a known identifier has been found.
pub struct IdentifierReader {}

impl IdentifierReader {
    /// Returns a new identifier reader.
    pub fn new() -> (r: Self) {
        Self {  }
    }

    /// Reads from the given reader until an identifier has been found.
    ///
    /// On success, the returned identifier is the first valid keyword encoded
    /// at or after the reader's position, and the reader consumes exactly
    /// through the keyword's last byte.  When the stream ends before any
    /// valid keyword, an I/O error is returned: no keyword is encoded
    /// anywhere at or after the position.
    pub fn read(&self, r: &mut ByteReader) -> (res: Result<Identifier, Error>)
        ensures
            final(r).spec_data() == old(r).spec_data(),
            final(r).spec_pos() <= final(r).spec_data().len(),
            res is Err ==> final(r).spec_pos() == old(r).spec_pos(),
            res is Ok <==> spec_first_keyword(old(r).spec_data(), old(r).spec_pos()) is Some,
            res matches Ok(id) ==> ({
                let j = spec_first_keyword(old(r).spec_data(), old(r).spec_pos())->Some_0;
                &&& id.spec_chars() == keyword_chars_at(old(r).spec_data(), j)
                &&& final(r).spec_pos() == keyword_end_at(old(r).spec_data(), j)
            }),
            match res {
                Ok(id) => exists|j: int|
                    {
                        &&& old(r).spec_pos() <= j
                        &&& #[trigger] keyword_at(old(r).spec_data(), j)
                        &&& forall|k: int|
                            old(r).spec_pos() <= k < j ==> !keyword_at(old(r).spec_data(), k)
                        &&& id.spec_chars() == keyword_chars_at(old(r).spec_data(), j)
                        &&& final(r).spec_pos() == keyword_end_at(old(r).spec_data(), j)
                    },
                Err(e) => e.is_io() && forall|k: int|
                    old(r).spec_pos() <= k ==> !keyword_at(old(r).spec_data(), k),
            },
            res matches Ok(id) ==> is_valid_chars(
                id.spec_chars()[0],
                id.spec_chars()[1],
                id.spec_chars()[2],
                id.spec_chars()[3],
            ),
    {
        let ghost data = old(r).spec_data();
        let ghost start = old(r).spec_pos();
        proof {
            use_type_invariant(&*r);
        }
        let n = r.len();
        let mut j = r.position();
        loop
            invariant
                data == old(r).spec_data(),
                start == old(r).spec_pos(),
                r.spec_data() == data,
                r.spec_pos() == start,
                n == data.len(),
                start <= j,
                start <= n,
                forall|k: int| start <= k < j ==> !keyword_at(data, k),
            decreases n + 16 - j,
        {
            if j > n || n - j < 12 {
                proof {
                    assert forall|k: int| start <= k implies !keyword_at(data, k) by {
                        if k >= j {
                            assert(k + 12 > n);
                        }
                    }
                    lemma_first_keyword_none(data, start);
                }
                return Err(Error::IO("stream ended before a valid keyword".to_owned()));
            }
            if r.byte_at(j) != 0 || r.byte_at(j + 1) != 0 || r.byte_at(j + 2) != 0 || r.byte_at(
                j + 4,
            ) != 0 || r.byte_at(j + 5) != 0 || r.byte_at(j + 6) != 0 || r.byte_at(j + 8) != 0
                || r.byte_at(j + 9) != 0 || r.byte_at(j + 10) != 0 {
                proof {
                    assert(!prefix3_zero(data, j as int));
                }
                j = j + 1;
                continue ;
            }
            let c0 = r.byte_at(j + 3);
            let c1 = r.byte_at(j + 7);
            let c2 = r.byte_at(j + 11);
            if c0 == 69 && c1 == 78 && c2 == 68 {
                proof {
                    assert(end_keyword_at(data, j as int));
                    assert(keyword_at(data, j as int));
                    lemma_first_keyword_some(data, start, j as int);
                }
                r.set_position(j + 12);
                let id = Identifier::from_chars([69, 78, 68, 0]);
                proof {
                    assert(id.spec_chars() =~= keyword_chars_at(data, j as int));
                    assert(keyword_end_at(data, j as int) == j + 12);
                }
                return Ok(id);
            }
            // The first three characters are not END; a keyword here must be a
            // four-word keyword.  Check the fourth word's upper bytes one at a
            // time, reading only as far as needed.
            if n - j < 13 {
                proof {
                    Self::lemma_no_keyword_after_zeros(data, j as int, start);
                    lemma_first_keyword_none(data, start);
                }
                return Err(Error::IO("stream ended before a valid keyword".to_owned()));
            }
            if r.byte_at(j + 12) != 0 {
                j = j + 1;
                continue ;
            }
            if n - j < 14 {
                proof {
                    Self::lemma_no_keyword_after_zeros(data, j as int, start);
                    lemma_first_keyword_none(data, start);
                }
                return Err(Error::IO("stream ended before a valid keyword".to_owned()));
            }
            if r.byte_at(j + 13) != 0 {
                j = j + 1;
                continue ;
            }
            if n - j < 15 {
                proof {
                    Self::lemma_no_keyword_after_zeros(data, j as int, start);
                    lemma_first_keyword_none(data, start);
                }
                return Err(Error::IO("stream ended before a valid keyword".to_owned()));
            }
            if r.byte_at(j + 14) != 0 {
                j = j + 1;
                continue ;
            }
            if n - j < 16 {
                proof {
                    Self::lemma_no_keyword_after_zeros(data, j as int, start);
                    lemma_first_keyword_none(data, start);
                }
                return Err(Error::IO("stream ended before a valid keyword".to_owned()));
            }
            let c3 = r.byte_at(j + 15);
            let id = Identifier::from_chars([c0, c1, c2, c3]);
            if id.is_valid() {
                proof {
                    assert(keyword4_at(data, j as int));
                    assert(keyword_at(data, j as int));
                    assert(id.spec_chars() =~= keyword_chars_at(data, j as int));
                    assert(keyword_end_at(data, j as int) == j + 16);
                    lemma_first_keyword_some(data, start, j as int);
                }
                r.set_position(j + 16);
                return Ok(id);
            }
            j = j + 1;
        }
    }

    /// When the words at `j` have zero upper bytes but the stream ends before
    /// the fourth word completes, no keyword can be encoded at or after the
    /// scan position: positions up to `j` were already ruled out, position
    /// `j` lacks the bytes, and any later position would need a first
    /// character inside the zero bytes of `j`'s words.
    proof fn lemma_no_keyword_after_zeros(data: Seq<u8>, j: int, start: int)
        requires
            start <= j,
            j + 12 <= data.len(),
            data.len() < j + 16,
            prefix3_zero(data, j),
            !chars3_are_end(data, j),
            forall|k: int| start <= k < j ==> !keyword_at(data, k),
        ensures
            forall|k: int| start <= k ==> !keyword_at(data, k),
    {
        assert forall|k: int| start <= k implies !keyword_at(data, k) by {
            if k >= j {
                if k == j {
                    assert(!end_keyword_at(data, j));
                    assert(!keyword4_at(data, j));
                } else if k + 12 <= data.len() {
                    // Here j < k <= j + 3, so the candidate's first character
                    // lies among the zero upper bytes of the second word at j.
                    assert(j + 4 <= k + 3 <= j + 6);
                    assert(data[k + 3] == 0);
                    assert(!chars3_are_end(data, k));
                    assert(!is_valid_chars(data[k + 3], data[k + 7], data[k + 11], data[k + 15]));
                    assert(!keyword4_at(data, k));
                } else {
                    assert(!keyword_at(data, k));
                }
            }
        }
    }
}

} // verus!
