//! The tessellation interface and the integer topology of the tessellated
//! solids.
//!
//! Evaluating vertex coordinates takes floating-point arithmetic, which the
//! verified library does not perform; a `Tessellator` supplies it from
//! outside.  What the library does own is the combinatorial side: how many
//! vertices each solid produces and which of them each triangle connects,
//! which this module states and proves.

mod mesh_builder;
mod topology;

pub use mesh_builder::MeshBuilder;
pub use topology::CylinderTessellationParameter;
pub use topology::box_indices;
pub use topology::cylinder_cap_indices;
pub use topology::cylinder_cap_vertex_count;
pub use topology::cylinder_side_indices;
pub use topology::cylinder_side_vertex_count;
pub use topology::icosahedron_indices;

use vstd::prelude::*;

use crate::error::Error;
use crate::loader::loader_rvm::primitive::Primitive;
use crate::structure::Mesh;

verus! {

/// Turns one parametric solid plus a placement transform into a triangle
/// mesh.
///
/// The matrix holds the bit patterns of a 3x3 linear part followed by a
/// translation.  Returning `None` skips the primitive (its kind is not
/// supported); an error likewise skips it without aborting the parse.
pub trait Tessellator {
    fn tessellate(&mut self, primitive: &Primitive, matrix: &[u32; 12]) -> Result<
        Option<Mesh>,
        Error,
    >;
}

/// A tessellator that declines every primitive: loading with it builds the
/// assembly tree without any geometry.
pub struct NullTessellator {}

impl Tessellator for NullTessellator {
    fn tessellate(&mut self, primitive: &Primitive, matrix: &[u32; 12]) -> (r: Result<
        Option<Mesh>,
        Error,
    >)
        ensures
            r matches Ok(o) && o is None,
    {
        Ok(None)
    }
}

} // verus!
