//! Section keywords of the RVM wire format.
//!
//! A keyword is encoded as 3 or 4 successive big-endian 32-bit words whose
//! upper 3 bytes are zero; the low byte of each word is one character.  The
//! three-character keyword `END` occupies 3 words, every other keyword 4.

use vstd::prelude::*;

use crate::error::Error;
use crate::loader::loader_rvm::reader::ByteReader;

verus! {

/// Whether the four characters form a valid section keyword.  `END` is the
/// only three-character keyword; its fourth character is the zero byte.
pub open spec fn is_valid_chars(c0: u8, c1: u8, c2: u8, c3: u8) -> bool {
    ||| (c0 == 72 && c1 == 69 && c2 == 65 && c3 == 68)  // HEAD
    ||| (c0 == 69 && c1 == 78 && c2 == 68 && c3 == 0)  // END
    ||| (c0 == 77 && c1 == 79 && c2 == 68 && c3 == 76)  // MODL
    ||| (c0 == 67 && c1 == 78 && c2 == 84 && c3 == 66)  // CNTB
    ||| (c0 == 80 && c1 == 82 && c2 == 73 && c3 == 77)  // PRIM
    ||| (c0 == 67 && c1 == 78 && c2 == 84 && c3 == 69)  // CNTE
    ||| (c0 == 67 && c1 == 79 && c2 == 76 && c3 == 82)  // COLR
}

/// Whether the upper three bytes of the word starting at byte `j` are zero.
pub open spec fn word_prefix_zero(data: Seq<u8>, j: int) -> bool
    recommends
        0 <= j,
        j + 4 <= data.len(),
{
    data[j] == 0 && data[j + 1] == 0 && data[j + 2] == 0
}

/// Whether the three words starting at byte `j` all have zero upper bytes.
pub open spec fn prefix3_zero(data: Seq<u8>, j: int) -> bool
    recommends
        0 <= j,
        j + 12 <= data.len(),
{
    word_prefix_zero(data, j) && word_prefix_zero(data, j + 4) && word_prefix_zero(data, j + 8)
}

/// Whether the characters of the three words starting at byte `j` spell
/// `END`.
pub open spec fn chars3_are_end(data: Seq<u8>, j: int) -> bool
    recommends
        0 <= j,
        j + 12 <= data.len(),
{
    data[j + 3] == 69 && data[j + 7] == 78 && data[j + 11] == 68
}

/// Whether a three-word `END` keyword is encoded at byte `j`.
pub open spec fn end_keyword_at(data: Seq<u8>, j: int) -> bool {
    &&& 0 <= j
    &&& j + 12 <= data.len()
    &&& prefix3_zero(data, j)
    &&& chars3_are_end(data, j)
}

/// Whether a valid four-word keyword is encoded at byte `j`.  The scanner
/// recognizes `END` after three words, so a four-word keyword only counts
/// where the first three characters do not spell `END`.
pub open spec fn keyword4_at(data: Seq<u8>, j: int) -> bool {
    &&& 0 <= j
    &&& j + 16 <= data.len()
    &&& prefix3_zero(data, j)
    &&& !chars3_are_end(data, j)
    &&& word_prefix_zero(data, j + 12)
    &&& is_valid_chars(data[j + 3], data[j + 7], data[j + 11], data[j + 15])
}

/// Whether any valid keyword is encoded at byte `j`.
pub open spec fn keyword_at(data: Seq<u8>, j: int) -> bool {
    end_keyword_at(data, j) || keyword4_at(data, j)
}

/// The characters of the keyword encoded at byte `j`.
pub open spec fn keyword_chars_at(data: Seq<u8>, j: int) -> Seq<u8>
    recommends
        keyword_at(data, j),
{
    if end_keyword_at(data, j) {
        seq![69u8, 78u8, 68u8, 0u8]
    } else {
        seq![data[j + 3], data[j + 7], data[j + 11], data[j + 15]]
    }
}

/// The position of the first valid keyword encoded at or after byte `pos`,
/// if any.
pub open spec fn spec_first_keyword(data: Seq<u8>, pos: int) -> Option<int>
    decreases data.len() - pos,
{
    if pos + 12 > data.len() {
        None
    } else if keyword_at(data, pos) {
        Some(pos)
    } else {
        spec_first_keyword(data, pos + 1)
    }
}

/// A keyword preceded by keyword-free positions is the first keyword.
pub proof fn lemma_first_keyword_some(data: Seq<u8>, start: int, j: int)
    requires
        start <= j,
        keyword_at(data, j),
        forall|k: int| start <= k < j ==> !keyword_at(data, k),
    ensures
        spec_first_keyword(data, start) == Some(j),
    decreases j - start,
{
    if start < j {
        lemma_first_keyword_some(data, start + 1, j);
    }
}

/// Where no position carries a keyword, there is no first keyword.
pub proof fn lemma_first_keyword_none(data: Seq<u8>, start: int)
    requires
        forall|k: int| start <= k ==> !keyword_at(data, k),
    ensures
        spec_first_keyword(data, start) is None,
    decreases data.len() - start,
{
    if start + 12 <= data.len() {
        lemma_first_keyword_none(data, start + 1);
    }
}

/// The position of the first byte after the keyword encoded at byte `j`.
pub open spec fn keyword_end_at(data: Seq<u8>, j: int) -> int
    recommends
        keyword_at(data, j),
{
    if end_keyword_at(data, j) {
        j + 12
    } else {
        j + 16
    }
}

/// Identifier for the RVM format: a 3- or 4-character section keyword.
///
/// A 3-character keyword stores the zero byte as its fourth character; the
/// empty identifier is all zero bytes.
#[derive(Clone, Copy, Debug)]
pub struct Identifier {
    chars: [u8; 4],
}

impl Identifier {
    /// The four stored characters.
    pub closed spec fn spec_chars(&self) -> Seq<u8> {
        self.chars@
    }

    /// Returns a new empty identifier.
    pub fn new() -> (r: Self)
        ensures
            r.spec_chars() == seq![0u8, 0u8, 0u8, 0u8],
    {
        let r = Self { chars: [0, 0, 0, 0] };
        proof {
            assert(r.spec_chars() =~= seq![0u8, 0u8, 0u8, 0u8]);
        }
        r
    }

    /// Returns a new identifier holding the given four characters.
    pub fn from_chars(chars: [u8; 4]) -> (r: Self)
        ensures
            r.spec_chars() == chars@,
    {
        Self { chars }
    }

    /// Returns true if the identifier is empty.
    pub fn is_empty(&self) -> (r: bool)
        ensures
            r == (self.spec_chars()[0] == 0),
    {
        self.chars[0] == 0
    }

    /// Returns true if the identifier is one of the valid section keywords.
    pub fn is_valid(&self) -> (r: bool)
        ensures
            r == is_valid_chars(
                self.spec_chars()[0],
                self.spec_chars()[1],
                self.spec_chars()[2],
                self.spec_chars()[3],
            ),
    {
        let c0 = self.chars[0];
        let c1 = self.chars[1];
        let c2 = self.chars[2];
        let c3 = self.chars[3];
        (c0 == 72 && c1 == 69 && c2 == 65 && c3 == 68) || (c0 == 69 && c1 == 78 && c2 == 68 && c3
            == 0) || (c0 == 77 && c1 == 79 && c2 == 68 && c3 == 76) || (c0 == 67 && c1 == 78 && c2
            == 84 && c3 == 66) || (c0 == 80 && c1 == 82 && c2 == 73 && c3 == 77) || (c0 == 67 && c1
            == 78 && c2 == 84 && c3 == 69) || (c0 == 67 && c1 == 79 && c2 == 76 && c3 == 82)
    }

    /// Returns the stored characters.
    pub fn get_chars(&self) -> (r: [u8; 4])
        ensures
            r@ == self.spec_chars(),
    {
        self.chars
    }

    /// Whether the stored characters equal the given four characters.
    pub fn equals_chars(&self, c0: u8, c1: u8, c2: u8, c3: u8) -> (r: bool)
        ensures
            r == (self.spec_chars() =~= seq![c0, c1, c2, c3]),
    {
        let r = self.chars[0] == c0 && self.chars[1] == c1 && self.chars[2] == c2 && self.chars[3]
            == c3;
        proof {
            if r {
                assert(self.spec_chars() =~= seq![c0, c1, c2, c3]);
            }
        }
        r
    }

    /// Reads an identifier from the given reader.
    ///
    /// Exactly three words are consumed when their upper bytes are not all
    /// zero (yielding the empty identifier) or when they spell `END`;
    /// otherwise a fourth word is read.  The characters are returned without
    /// validating them against the keyword set.
    pub fn read(r: &mut ByteReader) -> (res: Result<Identifier, Error>)
        ensures
            final(r).spec_data() == old(r).spec_data(),
            ({
                let data = old(r).spec_data();
                let j = old(r).spec_pos();
                match res {
                    Ok(id) => {
                        &&& j + 12 <= data.len()
                        &&& if !prefix3_zero(data, j) {
                            id.spec_chars()[0] == 0 && final(r).spec_pos() == j + 12
                        } else if chars3_are_end(data, j) {
                            id.spec_chars() =~= seq![69u8, 78u8, 68u8, 0u8] && final(r).spec_pos()
                                == j + 12
                        } else if !word_prefix_zero(data, j + 12) {
                            j + 16 <= data.len() && id.spec_chars()[0] == 0 && final(r).spec_pos()
                                == j + 16
                        } else {
                            j + 16 <= data.len() && id.spec_chars() =~= seq![
                                data[j + 3],
                                data[j + 7],
                                data[j + 11],
                                data[j + 15],
                            ] && final(r).spec_pos() == j + 16
                        }
                    },
                    Err(e) => {
                        &&& e.is_io()
                        &&& (j + 12 > data.len() || (j + 16 > data.len() && prefix3_zero(data, j)
                            && !chars3_are_end(data, j)))
                    },
                }
            }),
    {
        let ghost data = old(r).spec_data();
        let ghost j = old(r).spec_pos();
        let buf = match r.read_bytes(12) {
            Ok(b) => b,
            Err(e) => {
                return Err(e);
            },
        };
        proof {
            assert(buf@ == old(r).spec_data().subrange(
                old(r).spec_pos(),
                old(r).spec_pos() + 12,
            ));
            assert(buf@.len() == 12);
        }
        if buf[0] != 0 || buf[1] != 0 || buf[2] != 0 || buf[4] != 0 || buf[5] != 0 || buf[6] != 0
            || buf[8] != 0 || buf[9] != 0 || buf[10] != 0 {
            return Ok(Identifier::new());
        }
        let c0 = buf[3];
        let c1 = buf[7];
        let c2 = buf[11];
        if c0 == 69 && c1 == 78 && c2 == 68 {
            let id = Identifier::from_chars([69, 78, 68, 0]);
            proof {
                assert(id.spec_chars() =~= seq![69u8, 78u8, 68u8, 0u8]);
            }
            return Ok(id);
        }
        let buf2 = match r.read_bytes(4) {
            Ok(b) => b,
            Err(e) => {
                return Err(e);
            },
        };
        proof {
            assert(buf2@.len() == 4);
        }
        if buf2[0] != 0 || buf2[1] != 0 || buf2[2] != 0 {
            return Ok(Identifier::new());
        }
        let c3 = buf2[3];
        let id = Identifier::from_chars([c0, c1, c2, c3]);
        proof {
            assert(id.spec_chars() =~= seq![data[j + 3], data[j + 7], data[j + 11], data[j + 15]]);
        }
        Ok(id)
    }
}

impl std::str::FromStr for Identifier {
    type Err = Error;

    /// Builds an identifier from the first characters of the given string;
    /// missing characters stay zero.
    fn from_str(s: &str) -> Result<Self, Error> {
        let bytes = s.as_bytes();
        let mut chars: [u8; 4] = [0, 0, 0, 0];
        if bytes.len() > 0 {
            chars[0] = bytes[0];
        }
        if bytes.len() > 1 {
            chars[1] = bytes[1];
        }
        if bytes.len() > 2 {
            chars[2] = bytes[2];
        }
        if bytes.len() > 3 {
            chars[3] = bytes[3];
        }
        Ok(Self { chars })
    }
}

impl Default for Identifier {
    /// The default identifier is empty.
    fn default() -> (r: Self)
        ensures
            r.spec_chars() == seq![0u8, 0u8, 0u8, 0u8],
    {
        Identifier::new()
    }
}

} // verus!
