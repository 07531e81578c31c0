//! The error taxonomy of the library.

use vstd::prelude::*;

verus! {

/// All errors that loading or building CAD data can produce.
///
/// Structural and I/O errors abort a parse immediately; each variant carries a
/// human-readable description of what went wrong.
#[derive(Debug, Clone)]
pub enum Error {
    /// Index data references a vertex that does not exist.
    Indices(String),
    /// The underlying byte source ended or failed.
    IO(String),
    /// A caller-provided value was rejected.
    InvalidArgument(String),
    /// The input bytes do not follow the expected file format.
    InvalidFormat(String),
    /// An internal invariant would have been violated.
    Internal(String),
}

impl Error {
    /// Returns the description carried by the error.
    pub fn message(&self) -> (r: &String)
        ensures
            r@ == self.message_spec(),
    {
        match self {
            Error::Indices(m) => m,
            Error::IO(m) => m,
            Error::InvalidArgument(m) => m,
            Error::InvalidFormat(m) => m,
            Error::Internal(m) => m,
        }
    }

    /// The description carried by the error.
    pub open spec fn message_spec(&self) -> Seq<char> {
        match self {
            Error::Indices(m) => m@,
            Error::IO(m) => m@,
            Error::InvalidArgument(m) => m@,
            Error::InvalidFormat(m) => m@,
            Error::Internal(m) => m@,
        }
    }

    /// True for exactly the variants that indicate a malformed input stream.
    pub open spec fn is_invalid_format(&self) -> bool {
        matches!(self, Error::InvalidFormat(_))
    }

    /// True for exactly the variants that indicate an exhausted or failing
    /// byte source.
    pub open spec fn is_io(&self) -> bool {
        matches!(self, Error::IO(_))
    }

    /// True for exactly the variants that indicate out-of-range index data.
    pub open spec fn is_indices(&self) -> bool {
        matches!(self, Error::Indices(_))
    }

    /// True for exactly the variants that indicate a rejected argument.
    pub open spec fn is_invalid_argument(&self) -> bool {
        matches!(self, Error::InvalidArgument(_))
    }
}

} // verus!
