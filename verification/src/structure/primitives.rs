//! Index data and the primitives it spans.

use vstd::prelude::*;

use crate::error::Error;

verus! {

/// The underlying basic primitive type.
#[derive(Clone, Copy, PartialEq, Eq, Structural, Debug)]
pub enum PrimitiveType {
    Point,
    Line,
    LineStrip,
    LineLoop,
    Triangles,
    TriangleStrip,
    TriangleFan,
}

/// The index data defines how the primitives are indexed.
#[derive(Clone, Debug)]
pub enum IndexData {
    /// Non-indexed primitives are defined by the natural order of their
    /// vertices.  The payload is the number of vertices spanned.
    NonIndexed(usize),
    /// The raw 32-bit indices.
    Indices(Vec<u32>),
}

impl IndexData {
    /// The number of indices.
    pub open spec fn spec_num_indices(&self) -> nat {
        match self {
            IndexData::NonIndexed(n) => *n as nat,
            IndexData::Indices(indices) => indices@.len(),
        }
    }

    /// The maximal referenced vertex: the largest stored index, or, for
    /// non-indexed data spanning `n` vertices, `n - 1` reduced to 32 bits.
    pub open spec fn spec_max_index(&self) -> Option<u32> {
        match self {
            IndexData::NonIndexed(n) => if *n == 0 {
                None
            } else {
                Some(((*n - 1) as usize) as u32)
            },
            IndexData::Indices(indices) => if indices@.len() == 0 {
                None
            } else {
                Some(seq_max_u32(indices@))
            },
        }
    }

    /// Returns the number of indices.
    pub fn num_indices(&self) -> (r: usize)
        ensures
            r == self.spec_num_indices(),
    {
        match self {
            IndexData::NonIndexed(n) => *n,
            IndexData::Indices(indices) => indices.len(),
        }
    }

    /// Returns a reference onto the indices, or `None` for non-indexed data.
    pub fn get_indices_ref(&self) -> (r: Option<&Vec<u32>>)
        ensures
            match r {
                Some(indices) => self matches IndexData::Indices(v) && v@ == indices@,
                None => self matches IndexData::NonIndexed(_),
            },
    {
        match self {
            IndexData::Indices(indices) => Some(indices),
            IndexData::NonIndexed(_) => None,
        }
    }
}

/// The largest element of a non-empty sequence of indices.
pub open spec fn seq_max_u32(s: Seq<u32>) -> u32
    decreases s.len(),
{
    if s.len() <= 1 {
        s[0]
    } else if s[s.len() - 1] >= seq_max_u32(s.drop_last()) {
        s[s.len() - 1]
    } else {
        seq_max_u32(s.drop_last())
    }
}

/// The largest element of a non-empty sequence is contained in it and bounds
/// every element.
pub proof fn lemma_seq_max_u32(s: Seq<u32>)
    requires
        s.len() > 0,
    ensures
        s.contains(seq_max_u32(s)),
        forall|i: int| 0 <= i < s.len() ==> s[i] <= seq_max_u32(s),
    decreases s.len(),
{
    if s.len() == 1 {
        assert(s[0] == seq_max_u32(s));
    } else {
        lemma_seq_max_u32(s.drop_last());
        let m = seq_max_u32(s);
        if s[s.len() - 1] >= seq_max_u32(s.drop_last()) {
            assert(s.contains(m)) by {
                assert(s[s.len() - 1] == m);
            }
        } else {
            let sub = s.drop_last();
            assert(sub.contains(m));
            let j = choose|j: int| 0 <= j < sub.len() && sub[j] == m;
            assert(s[j] == m);
        }
        assert forall|i: int| 0 <= i < s.len() implies s[i] <= m by {
            if i < s.len() - 1 {
                assert(s.drop_last()[i] == s[i]);
            }
        }
    }
}

/// Whether index data of the given length is acceptable for the given
/// primitive type.
pub open spec fn index_count_acceptable(primitive_type: PrimitiveType, num_indices: nat) -> bool {
    match primitive_type {
        PrimitiveType::Point => true,
        PrimitiveType::Line => num_indices % 2 == 0,
        PrimitiveType::LineStrip => num_indices >= 2,
        PrimitiveType::LineLoop => num_indices >= 2,
        PrimitiveType::Triangles => num_indices % 3 == 0,
        PrimitiveType::TriangleStrip => num_indices >= 3,
        PrimitiveType::TriangleFan => num_indices >= 3,
    }
}

/// How many primitives index data of the given length spans for the given
/// primitive type.
pub open spec fn spec_primitive_count(primitive_type: PrimitiveType, num_indices: nat) -> nat {
    match primitive_type {
        PrimitiveType::Point => num_indices,
        PrimitiveType::Line => num_indices / 2,
        PrimitiveType::LineStrip => if num_indices == 0 {
            0
        } else {
            (num_indices - 1) as nat
        },
        PrimitiveType::LineLoop => num_indices,
        PrimitiveType::Triangles => num_indices / 3,
        PrimitiveType::TriangleStrip => if num_indices >= 2 {
            (num_indices - 2) as nat
        } else {
            0
        },
        PrimitiveType::TriangleFan => if num_indices >= 2 {
            (num_indices - 2) as nat
        } else {
            0
        },
    }
}

/// The primitives defined by index data and a primitive type.
pub struct Primitives {
    /// The primitive type of the index data.
    primitive_type: PrimitiveType,
    /// The raw stored index data.
    index_data: IndexData,
}

impl Primitives {
    /// The stored primitive type.
    pub closed spec fn spec_primitive_type(&self) -> PrimitiveType {
        self.primitive_type
    }

    /// The stored index data.
    pub closed spec fn spec_index_data(&self) -> IndexData {
        self.index_data
    }

    /// Returns new primitive data, rejecting index data whose length does not
    /// fit the primitive type.
    pub fn new(index_data: IndexData, primitive_type: PrimitiveType) -> (r: Result<Self, Error>)
        ensures
            r is Ok <==> index_count_acceptable(primitive_type, index_data.spec_num_indices()),
            match r {
                Ok(p) => p.spec_primitive_type() == primitive_type && p.spec_index_data()
                    == index_data,
                Err(e) => e.is_indices(),
            },
    {
        let num_indices = index_data.num_indices();
        match primitive_type {
            PrimitiveType::Line => {
                if num_indices % 2 != 0 {
                    return Err(
                        Error::Indices("lines primitive indices must be a multiple of 2".to_owned()),
                    );
                }
            },
            PrimitiveType::LineStrip => {
                if num_indices < 2 {
                    return Err(Error::Indices("line-strip indices must be at least 2".to_owned()));
                }
            },
            PrimitiveType::LineLoop => {
                if num_indices < 2 {
                    return Err(Error::Indices("line-loop indices must be at least 2".to_owned()));
                }
            },
            PrimitiveType::Triangles => {
                if num_indices % 3 != 0 {
                    return Err(
                        Error::Indices("triangle indices must be a multiple of 3".to_owned()),
                    );
                }
            },
            PrimitiveType::TriangleStrip => {
                if num_indices < 3 {
                    return Err(
                        Error::Indices("triangle-strip indices must be at least 3".to_owned()),
                    );
                }
            },
            PrimitiveType::TriangleFan => {
                if num_indices < 3 {
                    return Err(
                        Error::Indices("triangle-fan indices must be at least 3".to_owned()),
                    );
                }
            },
            PrimitiveType::Point => {},
        }
        Ok(Self { primitive_type, index_data })
    }

    /// Returns the number of primitives the index data spans.
    pub fn num_primitives(&self) -> (r: usize)
        ensures
            r == spec_primitive_count(
                self.spec_primitive_type(),
                self.spec_index_data().spec_num_indices(),
            ),
    {
        let num_indices = self.index_data.num_indices();
        match self.primitive_type {
            PrimitiveType::Point => num_indices,
            PrimitiveType::Line => num_indices / 2,
            PrimitiveType::LineStrip => if num_indices == 0 {
                0
            } else {
                num_indices - 1
            },
            PrimitiveType::LineLoop => num_indices,
            PrimitiveType::Triangles => num_indices / 3,
            PrimitiveType::TriangleStrip => if num_indices >= 2 {
                num_indices - 2
            } else {
                0
            },
            PrimitiveType::TriangleFan => if num_indices >= 2 {
                num_indices - 2
            } else {
                0
            },
        }
    }

    /// Returns the primitive type.
    pub fn get_primitive_type(&self) -> (r: PrimitiveType)
        ensures
            r == self.spec_primitive_type(),
    {
        self.primitive_type
    }

    /// Returns a reference onto the raw index data.
    pub fn get_raw_index_data(&self) -> (r: &IndexData)
        ensures
            *r == self.spec_index_data(),
    {
        &self.index_data
    }

    /// Returns the maximal referenced vertex.
    pub fn max_index(&self) -> (r: Option<u32>)
        ensures
            r == self.spec_index_data().spec_max_index(),
    {
        match &self.index_data {
            IndexData::Indices(indices) => {
                if indices.len() == 0 {
                    None
                } else {
                    let mut m: u32 = indices[0];
                    let mut i: usize = 1;
                    while i < indices.len()
                        invariant
                            1 <= i <= indices@.len(),
                            m == seq_max_u32(indices@.take(i as int)),
                        decreases indices@.len() - i,
                    {
                        proof {
                            assert(indices@.take(i + 1).drop_last() =~= indices@.take(i as int));
                        }
                        if indices[i] > m {
                            m = indices[i];
                        }
                        i = i + 1;
                    }
                    proof {
                        assert(indices@.take(indices@.len() as int) =~= indices@);
                        lemma_seq_max_u32(indices@);
                    }
                    Some(m)
                }
            },
            IndexData::NonIndexed(n) => if *n == 0 {
                None
            } else {
                Some(#[verifier::truncate] ((*n - 1) as u32))
            },
        }
    }
}

} // verus!
