//! A mesh pairs vertices with the primitives indexing into them.

use vstd::prelude::*;

use crate::error::Error;
use crate::structure::primitives::Primitives;
use crate::structure::vertices::Vertices;

verus! {

/// A mesh is a tessellated geometry consisting of vertices and primitives.
///
/// Invariant: every index stored in the primitives references an existing
/// vertex; this is enforced at construction and violations are fatal.
pub struct Mesh {
    vertices: Vertices,
    primitives: Primitives,
}

impl Mesh {
    /// The stored vertices.
    pub closed spec fn spec_vertices(&self) -> Vertices {
        self.vertices
    }

    /// The stored primitives.
    pub closed spec fn spec_primitives(&self) -> Primitives {
        self.primitives
    }

    /// Whether the given primitives only reference vertices that exist among
    /// the given vertices.
    pub open spec fn indices_in_bounds(vertices: &Vertices, primitives: &Primitives) -> bool {
        match primitives.spec_index_data().spec_max_index() {
            Some(m) => (m as nat) < vertices.spec_positions().len(),
            None => true,
        }
    }

    /// Creates a new mesh object from the given vertices and primitives.
    ///
    /// Index data whose maximal referenced vertex does not exist is rejected
    /// with an `Indices` error.
    pub fn new(vertices: Vertices, primitives: Primitives) -> (r: Result<Self, Error>)
        ensures
            r is Ok <==> Self::indices_in_bounds(&vertices, &primitives),
            match r {
                Ok(mesh) => mesh.spec_vertices() == vertices && mesh.spec_primitives()
                    == primitives,
                Err(e) => e.is_indices(),
            },
    {
        let num_vertices = vertices.len();
        match primitives.max_index() {
            Some(m) => {
                if m as usize >= num_vertices {
                    return Err(
                        Error::Indices(
                            "index data references a vertex beyond the vertex count".to_owned(),
                        ),
                    );
                }
            },
            None => {},
        }
        Ok(Self { vertices, primitives })
    }

    /// Returns a reference onto the vertices.
    pub fn get_vertices(&self) -> (r: &Vertices)
        ensures
            *r == self.spec_vertices(),
    {
        &self.vertices
    }

    /// Returns a reference onto the primitives.
    pub fn get_primitives(&self) -> (r: &Primitives)
        ensures
            *r == self.spec_primitives(),
    {
        &self.primitives
    }
}

} // verus!
