//! Resources: descriptors of where input bytes come from.
//!
//! Opening and reading a resource is I/O and belongs to the embedding
//! application; the library holds the descriptor (a path or an in-memory
//! blob) and its mime type.

use vstd::prelude::*;

verus! {

/// A resource is a descriptor of a specific input, for example a file path
/// or a memory blob, tagged with the mime type of its content.
pub trait Resource {
    /// Returns the mime type of the resource.
    fn get_mime_type(&self) -> String;
}

/// A resource described by a file path.
pub struct FileResource {
    path: String,
    mime_type: String,
}

impl FileResource {
    /// The stored path.
    pub closed spec fn spec_path(&self) -> Seq<char> {
        self.path@
    }

    /// The stored mime type.
    pub closed spec fn spec_mime_type(&self) -> Seq<char> {
        self.mime_type@
    }

    /// Returns a new file resource with the given file path and mime type.
    pub fn new(path: String, mime_type: &str) -> (r: Self)
        ensures
            r.spec_path() == path@,
            r.spec_mime_type() == mime_type@,
    {
        Self { path, mime_type: mime_type.to_owned() }
    }

    /// Returns the internally stored path as a reference.
    pub fn get_path(&self) -> (r: &String)
        ensures
            r@ == self.spec_path(),
    {
        &self.path
    }
}

impl Resource for FileResource {
    fn get_mime_type(&self) -> (r: String)
        ensures
            r@ == self.spec_mime_type(),
    {
        self.mime_type.clone()
    }
}

/// A simplified resource holding a memory blob.
pub struct MemoryResource {
    data: Vec<u8>,
    mime_type: String,
}

impl MemoryResource {
    /// The stored bytes.
    pub closed spec fn spec_data(&self) -> Seq<u8> {
        self.data@
    }

    /// The stored mime type.
    pub closed spec fn spec_mime_type(&self) -> Seq<char> {
        self.mime_type@
    }

    /// Creates a new memory resource from the given bytes and mime type.
    pub fn new(data: Vec<u8>, mime_type: String) -> (r: Self)
        ensures
            r.spec_data() == data@,
            r.spec_mime_type() == mime_type@,
    {
        Self { data, mime_type }
    }

    /// Returns a reference onto the stored bytes.
    pub fn get_data(&self) -> (r: &Vec<u8>)
        ensures
            r@ == self.spec_data(),
    {
        &self.data
    }

    /// Returns a copy of the stored bytes.
    pub fn to_bytes(&self) -> (r: Vec<u8>)
        ensures
            r@ == self.spec_data(),
    {
        let mut bytes: Vec<u8> = Vec::new();
        let mut i: usize = 0;
        while i < self.data.len()
            invariant
                0 <= i <= self.data@.len(),
                bytes@ =~= self.data@.take(i as int),
            decreases self.data@.len() - i,
        {
            bytes.push(self.data[i]);
            proof {
                assert(bytes@ =~= self.data@.take(i + 1));
            }
            i = i + 1;
        }
        proof {
            assert(self.data@.take(self.data@.len() as int) =~= self.data@);
        }
        bytes
    }
}

impl Resource for MemoryResource {
    fn get_mime_type(&self) -> (r: String)
        ensures
            r@ == self.spec_mime_type(),
    {
        self.mime_type.clone()
    }
}

} // verus!
