//! A builder accumulating vertices and triangles into a mesh.

use vstd::pervasive::unreached;
use vstd::prelude::*;

use crate::structure::IndexData;
use crate::structure::Mesh;
use crate::structure::Normal;
use crate::structure::Point3D;
use crate::structure::PrimitiveType;
use crate::structure::Primitives;
use crate::structure::Vertices;
use crate::structure::primitives::lemma_seq_max_u32;

verus! {

/// A builder for creating a triangle mesh: every vertex carries a position
/// and a normal, and every triangle added is checked to reference existing
/// vertices, so the finished mesh always satisfies the mesh invariant.
pub struct MeshBuilder {
    positions: Vec<Point3D>,
    normals: Vec<Normal>,
    indices: Vec<u32>,
}

impl MeshBuilder {
    /// Positions and normals go together, triangles come in threes, and
    /// every index references an existing vertex.
    pub closed spec fn wf(&self) -> bool {
        &&& self.positions@.len() == self.normals@.len()
        &&& self.indices@.len() % 3 == 0
        &&& forall|k: int|
            0 <= k < self.indices@.len() ==> (#[trigger] self.indices@[k]) < self.positions@.len()
    }

    /// The accumulated positions.
    pub closed spec fn spec_positions(&self) -> Seq<Point3D> {
        self.positions@
    }

    /// The accumulated normals.
    pub closed spec fn spec_normals(&self) -> Seq<Normal> {
        self.normals@
    }

    /// The accumulated triangle indices.
    pub closed spec fn spec_indices(&self) -> Seq<u32> {
        self.indices@
    }

    /// Creates a new empty mesh builder.
    pub fn new() -> (r: Self)
        ensures
            r.wf(),
            r.spec_positions() == Seq::<Point3D>::empty(),
            r.spec_normals() == Seq::<Normal>::empty(),
            r.spec_indices() == Seq::<u32>::empty(),
    {
        let r = Self { positions: Vec::new(), normals: Vec::new(), indices: Vec::new() };
        proof {
            assert(r.spec_positions() =~= Seq::<Point3D>::empty());
            assert(r.spec_normals() =~= Seq::<Normal>::empty());
            assert(r.spec_indices() =~= Seq::<u32>::empty());
        }
        r
    }

    /// Adds a new vertex to the mesh and returns its index.
    pub fn add_vertex(&mut self, position: Point3D, normal: Normal) -> (r: u32)
        requires
            old(self).wf(),
            old(self).spec_positions().len() < u32::MAX,
        ensures
            final(self).wf(),
            r == old(self).spec_positions().len(),
            final(self).spec_positions() == old(self).spec_positions().push(position),
            final(self).spec_normals() == old(self).spec_normals().push(normal),
            final(self).spec_indices() == old(self).spec_indices(),
    {
        let index = self.positions.len() as u32;
        self.positions.push(position);
        self.normals.push(normal);
        index
    }

    /// Adds new vertices to the mesh and returns the index of the first one.
    pub fn add_vertices_from_slice(&mut self, positions: &Vec<Point3D>, normals: &Vec<Normal>) -> (r:
        u32)
        requires
            old(self).wf(),
            positions@.len() == normals@.len(),
            old(self).spec_positions().len() + positions@.len() <= u32::MAX,
        ensures
            final(self).wf(),
            r == old(self).spec_positions().len(),
            final(self).spec_positions() == old(self).spec_positions() + positions@,
            final(self).spec_normals() == old(self).spec_normals() + normals@,
            final(self).spec_indices() == old(self).spec_indices(),
    {
        let index = self.positions.len() as u32;
        let mut i: usize = 0;
        while i < positions.len()
            invariant
                0 <= i <= positions@.len(),
                positions@.len() == normals@.len(),
                self.positions@ =~= old(self).spec_positions() + positions@.take(i as int),
                self.normals@ =~= old(self).spec_normals() + normals@.take(i as int),
                self.indices@ == old(self).spec_indices(),
                old(self).spec_positions().len() + positions@.len() <= u32::MAX,
                self.wf(),
            decreases positions@.len() - i,
        {
            self.positions.push(positions[i]);
            self.normals.push(normals[i]);
            proof {
                assert(self.positions@ =~= old(self).spec_positions() + positions@.take(i + 1));
                assert(self.normals@ =~= old(self).spec_normals() + normals@.take(i + 1));
            }
            i = i + 1;
        }
        proof {
            assert(positions@.take(positions@.len() as int) =~= positions@);
            assert(normals@.take(normals@.len() as int) =~= normals@);
        }
        index
    }

    /// Adds a triangle to the mesh.  Each index must reference an existing
    /// vertex.
    pub fn add_triangle(&mut self, t: &[u32; 3])
        requires
            old(self).wf(),
            t@[0] < old(self).spec_positions().len(),
            t@[1] < old(self).spec_positions().len(),
            t@[2] < old(self).spec_positions().len(),
        ensures
            final(self).wf(),
            final(self).spec_positions() == old(self).spec_positions(),
            final(self).spec_normals() == old(self).spec_normals(),
            final(self).spec_indices() == old(self).spec_indices() + t@,
    {
        self.indices.push(t[0]);
        self.indices.push(t[1]);
        self.indices.push(t[2]);
        proof {
            assert(self.indices@ =~= old(self).spec_indices() + t@);
        }
    }

    /// Adds triangles to the mesh.  The indices come in threes and each must
    /// reference an existing vertex.
    pub fn add_triangles_from_slice(&mut self, triangles: &Vec<u32>)
        requires
            old(self).wf(),
            triangles@.len() % 3 == 0,
            forall|k: int|
                0 <= k < triangles@.len() ==> (#[trigger] triangles@[k]) < old(
                    self,
                ).spec_positions().len(),
        ensures
            final(self).wf(),
            final(self).spec_positions() == old(self).spec_positions(),
            final(self).spec_normals() == old(self).spec_normals(),
            final(self).spec_indices() == old(self).spec_indices() + triangles@,
    {
        let mut i: usize = 0;
        while i < triangles.len()
            invariant
                0 <= i <= triangles@.len(),
                triangles@.len() % 3 == 0,
                forall|k: int|
                    0 <= k < triangles@.len() ==> (#[trigger] triangles@[k])
                        < self.positions@.len(),
                self.positions@ == old(self).spec_positions(),
                self.normals@ == old(self).spec_normals(),
                self.indices@ =~= old(self).spec_indices() + triangles@.take(i as int),
                i % 3 == 0,
                old(self).wf(),
            decreases triangles@.len() - i,
        {
            proof {
                assert(i + 3 <= triangles@.len()) by {
                    assert(i != triangles@.len());
                    assert(i % 3 == 0 && triangles@.len() % 3 == 0);
                }
            }
            self.indices.push(triangles[i]);
            self.indices.push(triangles[i + 1]);
            self.indices.push(triangles[i + 2]);
            proof {
                assert(self.indices@ =~= old(self).spec_indices() + triangles@.take(i + 3));
            }
            i = i + 3;
        }
        proof {
            assert(triangles@.take(triangles@.len() as int) =~= triangles@);
        }
    }

    /// Returns the number of vertices in the mesh builder.
    pub fn vertices_len(&self) -> (r: usize)
        ensures
            r == self.spec_positions().len(),
    {
        self.positions.len()
    }

    /// Returns true if the mesh builder is empty.
    pub fn is_empty(&self) -> (r: bool)
        ensures
            r == (self.spec_positions().len() == 0 && self.spec_normals().len() == 0
                && self.spec_indices().len() == 0),
    {
        self.positions.len() == 0 && self.normals.len() == 0 && self.indices.len() == 0
    }

    /// Transforms the mesh builder into a mesh of triangles.  The builder's
    /// checks guarantee the mesh invariant, so this cannot fail.
    pub fn into_mesh(self) -> (r: Mesh)
        requires
            self.wf(),
        ensures
            r.spec_vertices().spec_positions() == self.spec_positions(),
            r.spec_vertices().spec_normals() == Some(self.spec_normals()),
            r.spec_vertices().spec_colors() is None,
            r.spec_primitives().spec_primitive_type() == PrimitiveType::Triangles,
            r.spec_primitives().spec_index_data() matches IndexData::Indices(v) && v@
                == self.spec_indices(),
    {
        let MeshBuilder { positions, normals, indices } = self;
        let mut vertices = Vertices::from_positions(positions);
        let set_result = vertices.set_normals(normals);
        proof {
            assert(set_result is Ok);
        }
        let ghost indices_view = indices@;
        let index_data = IndexData::Indices(indices);
        proof {
            if indices_view.len() > 0 {
                lemma_seq_max_u32(indices_view);
            }
        }
        let primitives = match Primitives::new(index_data, PrimitiveType::Triangles) {
            Ok(p) => p,
            Err(_) => unreached(),
        };
        match Mesh::new(vertices, primitives) {
            Ok(mesh) => mesh,
            Err(_) => unreached(),
        }
    }
}

} // verus!
