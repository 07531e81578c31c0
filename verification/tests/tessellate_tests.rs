use cad_import::loader::loader_rvm::tessellate::CylinderTessellationParameter;
use cad_import::loader::loader_rvm::tessellate::MeshBuilder;
use cad_import::loader::loader_rvm::tessellate::box_indices;
use cad_import::loader::loader_rvm::tessellate::cylinder_cap_indices;
use cad_import::loader::loader_rvm::tessellate::cylinder_cap_vertex_count;
use cad_import::loader::loader_rvm::tessellate::cylinder_side_indices;
use cad_import::loader::loader_rvm::tessellate::cylinder_side_vertex_count;
use cad_import::loader::loader_rvm::tessellate::icosahedron_indices;
use cad_import::structure::Point3D;
use cad_import::structure::PrimitiveType;

#[test]
fn test_box_topology() {
    // A box mesh always spans exactly 24 vertices and 36 indices, four
    // vertices and two triangles per face.
    let indices = box_indices();
    assert_eq!(indices.len(), 36);
    assert!(indices.iter().all(|&i| i < 24));
    assert_eq!(
        indices.as_slice(),
        &[
            0, 1, 2, 2, 3, 0, 4, 5, 6, 6, 7, 4, 8, 9, 10, 10, 11, 8, 12, 13, 14, 14, 15, 12, 16,
            17, 18, 18, 19, 16, 20, 21, 22, 22, 23, 20
        ]
    );
}

#[test]
fn test_icosahedron_topology() {
    let indices = icosahedron_indices();
    assert_eq!(indices.len(), 60);
    assert!(indices.iter().all(|&i| i < 12));
}

#[test]
fn test_cylinder_topology_minimal() {
    let t = CylinderTessellationParameter {
        num_radial_circles: 2,
        num_height_segments: 2,
        num_segments_per_circle: 4,
    };
    assert_eq!(cylinder_cap_vertex_count(&t), 5);
    assert_eq!(cylinder_side_vertex_count(&t), 12);

    let cap = cylinder_cap_indices(&t, false, 0);
    assert_eq!(cap.len(), 12); // a fan of four triangles
    assert!(cap.iter().all(|&i| i < 5));

    let side = cylinder_side_indices(&t, 5);
    assert_eq!(side.len(), 48); // two rows of four quads, two triangles each
    assert!(side.iter().all(|&i| (5..17).contains(&i)));
}

#[test]
fn test_cylinder_topology_winding_parity() {
    // The two caps use mirrored windings so both face away from the body.
    let t = CylinderTessellationParameter {
        num_radial_circles: 2,
        num_height_segments: 2,
        num_segments_per_circle: 4,
    };
    let top = cylinder_cap_indices(&t, false, 0);
    let bottom = cylinder_cap_indices(&t, true, 0);
    assert_eq!(top.len(), bottom.len());
    assert_ne!(top.as_slice(), bottom.as_slice());
    // The first top triangle fans counter-clockwise, the first bottom
    // triangle clockwise.
    assert_eq!(&top[0..3], &[0, 1, 2]);
    assert_eq!(&bottom[0..3], &[0, 2, 1]);
}

#[test]
fn test_cylinder_topology_larger() {
    let t = CylinderTessellationParameter {
        num_radial_circles: 4,
        num_height_segments: 7,
        num_segments_per_circle: 16,
    };
    let cap_vertices = cylinder_cap_vertex_count(&t) as u32;
    assert_eq!(cap_vertices, 49);
    let cap = cylinder_cap_indices(&t, true, 10);
    assert_eq!(cap.len(), 3 * 16 + 6 * 16 * 2);
    assert!(cap.iter().all(|&i| (10..10 + cap_vertices).contains(&i)));

    let side_vertices = cylinder_side_vertex_count(&t) as u32;
    assert_eq!(side_vertices, 8 * 16);
    let side = cylinder_side_indices(&t, 0);
    assert_eq!(side.len(), 6 * 7 * 16);
    assert!(side.iter().all(|&i| i < side_vertices));
}

#[test]
fn test_mesh_builder_accumulates() {
    let mut builder = MeshBuilder::new();
    assert!(builder.is_empty());
    let v0 = builder.add_vertex(Point3D::new(1, 2, 3), Point3D::new(0, 0, 1));
    let v1 = builder.add_vertex(Point3D::new(4, 5, 6), Point3D::new(0, 0, 1));
    let v2 = builder.add_vertex(Point3D::new(7, 8, 9), Point3D::new(0, 0, 1));
    assert_eq!((v0, v1, v2), (0, 1, 2));
    builder.add_triangle(&[v0, v1, v2]);
    assert_eq!(builder.vertices_len(), 3);

    let mesh = builder.into_mesh();
    assert_eq!(mesh.get_vertices().len(), 3);
    assert_eq!(mesh.get_vertices().get_positions()[1], Point3D::new(4, 5, 6));
    assert_eq!(mesh.get_primitives().get_primitive_type(), PrimitiveType::Triangles);
    assert_eq!(mesh.get_primitives().num_primitives(), 1);
}
