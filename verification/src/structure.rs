//! The central in-memory structure for loaded CAD data: meshes, shapes,
//! materials, and the assembly tree.

mod cad_data;
mod mesh;
pub mod primitives;
mod shape;
mod tree;
mod vertices;

pub use cad_data::CADData;
pub use mesh::Mesh;
pub use primitives::IndexData;
pub use primitives::PrimitiveType;
pub use primitives::Primitives;
pub use shape::Material;
pub use shape::PaletteColor;
pub use shape::PhongMaterialData;
pub use shape::Shape;
pub use shape::ShapePart;
pub use tree::Node;
pub use tree::NodeId;
pub use tree::Tree;
pub use vertices::Normal;
pub use vertices::Point3D;
pub use vertices::Vertices;
