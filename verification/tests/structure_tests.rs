use cad_import::RGBA;
use cad_import::structure::IndexData;
use cad_import::structure::Mesh;
use cad_import::structure::Point3D;
use cad_import::structure::PrimitiveType;
use cad_import::structure::Primitives;
use cad_import::structure::Vertices;

#[test]
fn test_num_primitives() {
    let p = Primitives::new(IndexData::Indices(vec![1, 2]), PrimitiveType::Point).unwrap();
    assert_eq!(p.num_primitives(), 2);

    let p = Primitives::new(IndexData::Indices(vec![1, 2, 3, 4]), PrimitiveType::Line).unwrap();
    assert_eq!(p.num_primitives(), 2);

    let p = Primitives::new(IndexData::Indices(vec![1, 2, 3, 4]), PrimitiveType::LineLoop).unwrap();
    assert_eq!(p.num_primitives(), 4);

    let p = Primitives::new(IndexData::Indices(vec![1, 2, 3, 4]), PrimitiveType::LineStrip).unwrap();
    assert_eq!(p.num_primitives(), 3);

    let p = Primitives::new(IndexData::Indices(vec![1, 2, 3, 4, 5, 6]), PrimitiveType::Triangles)
        .unwrap();
    assert_eq!(p.num_primitives(), 2);

    let p = Primitives::new(
        IndexData::Indices(vec![1, 2, 3, 4, 5, 6]),
        PrimitiveType::TriangleStrip,
    )
        .unwrap();
    assert_eq!(p.num_primitives(), 4);

    let p = Primitives::new(IndexData::Indices(vec![1, 2, 3, 4, 5, 6]), PrimitiveType::TriangleFan)
        .unwrap();
    assert_eq!(p.num_primitives(), 4);
}

#[test]
fn test_primitives_rejects_bad_counts() {
    assert!(Primitives::new(IndexData::Indices(vec![1]), PrimitiveType::Line).is_err());
    assert!(Primitives::new(IndexData::Indices(vec![1]), PrimitiveType::LineStrip).is_err());
    assert!(Primitives::new(IndexData::Indices(vec![1]), PrimitiveType::LineLoop).is_err());
    assert!(Primitives::new(IndexData::Indices(vec![1, 2]), PrimitiveType::Triangles).is_err());
    assert!(
        Primitives::new(IndexData::Indices(vec![1, 2]), PrimitiveType::TriangleStrip).is_err()
    );
    assert!(Primitives::new(IndexData::Indices(vec![1, 2]), PrimitiveType::TriangleFan).is_err());
    assert!(Primitives::new(IndexData::Indices(vec![1]), PrimitiveType::Point).is_ok());
}

#[test]
fn test_max_index() {
    let p = Primitives::new(IndexData::Indices(vec![4, 9, 2]), PrimitiveType::Triangles).unwrap();
    assert_eq!(p.max_index(), Some(9));

    let p = Primitives::new(IndexData::Indices(vec![]), PrimitiveType::Triangles).unwrap();
    assert_eq!(p.max_index(), None);

    let p = Primitives::new(IndexData::NonIndexed(5), PrimitiveType::Point).unwrap();
    assert_eq!(p.max_index(), Some(4));

    let p = Primitives::new(IndexData::NonIndexed(0), PrimitiveType::Point).unwrap();
    assert_eq!(p.max_index(), None);
}

#[test]
fn test_mesh_rejects_out_of_range_indices() {
    // An index referencing a vertex at or beyond the vertex count is fatal.
    let positions = vec![
        Point3D::new(0, 0, 0),
        Point3D::new(1, 0, 0),
        Point3D::new(0, 1, 0),
    ];
    let vertices = Vertices::from_positions(positions);
    let primitives = Primitives::new(IndexData::Indices(vec![0, 1, 3]), PrimitiveType::Triangles)
        .unwrap();
    let result = Mesh::new(vertices, primitives);
    assert!(result.is_err());
    let message = result.err().unwrap().message().clone();
    assert!(message.contains("vertex"));
}

#[test]
fn test_mesh_accepts_in_range_indices() {
    let positions = vec![
        Point3D::new(0, 0, 0),
        Point3D::new(1, 0, 0),
        Point3D::new(0, 1, 0),
    ];
    let vertices = Vertices::from_positions(positions);
    let primitives = Primitives::new(IndexData::Indices(vec![0, 1, 2]), PrimitiveType::Triangles)
        .unwrap();
    let mesh = Mesh::new(vertices, primitives).unwrap();
    assert_eq!(mesh.get_vertices().len(), 3);
    assert_eq!(mesh.get_primitives().num_primitives(), 1);
}

#[test]
fn test_vertices_attributes() {
    let positions = vec![Point3D::new(0, 0, 0), Point3D::new(1, 2, 3)];
    let mut vertices = Vertices::from_positions(positions);
    assert_eq!(vertices.len(), 2);

    // A mismatched attribute length is rejected and nothing changes.
    assert!(vertices.set_normals(vec![Point3D::new(0, 0, 1)]).is_err());
    assert!(vertices.get_normals().is_none());

    assert!(vertices.set_normals(vec![Point3D::new(0, 0, 1), Point3D::new(0, 1, 0)]).is_ok());
    assert_eq!(vertices.get_normals().unwrap().len(), 2);

    assert!(vertices.set_colors(vec![RGBA::new(0, 0, 0, 0)]).is_err());
    assert!(vertices.set_colors(vec![RGBA::new(1, 2, 3, 4), RGBA::new(5, 6, 7, 8)]).is_ok());
    assert_eq!(vertices.get_colors().unwrap().len(), 2);
    assert_eq!(vertices.get_colors().unwrap()[0].red, 1);
}
