use cad_import::loader::LoaderRVM;
use cad_import::loader::loader_rvm::ByteReader;
use cad_import::loader::loader_rvm::CADDataCreator;
use cad_import::loader::loader_rvm::Primitive;
use cad_import::loader::loader_rvm::RVMInterpreter;
use cad_import::loader::loader_rvm::RVMParser;
use cad_import::loader::loader_rvm::RVMMaterialManager;
use cad_import::loader::loader_rvm::tessellate::NullTessellator;
use cad_import::loader::loader_rvm::tessellate::Tessellator;
use cad_import::structure::IndexData;
use cad_import::structure::Material;
use cad_import::structure::Mesh;
use cad_import::structure::Point3D;
use cad_import::structure::PrimitiveType;
use cad_import::structure::Primitives;
use cad_import::structure::Vertices;

fn push_word(out: &mut Vec<u8>, w: u32) {
    out.extend_from_slice(&w.to_be_bytes());
}

fn push_keyword(out: &mut Vec<u8>, keyword: &str) {
    for c in keyword.bytes() {
        out.extend_from_slice(&[0, 0, 0, c]);
    }
}

fn push_string(out: &mut Vec<u8>, s: &str) {
    let bytes = s.as_bytes();
    let words = (bytes.len() + 3) / 4;
    push_word(out, words as u32);
    for i in 0..words * 4 {
        out.push(if i < bytes.len() { bytes[i] } else { 0 });
    }
}

fn push_head(out: &mut Vec<u8>) {
    push_keyword(out, "HEAD");
    push_word(out, 0);
    push_word(out, 0);
    push_word(out, 1); // version 1: no encoding string
    push_string(out, "Sample banner");
    push_string(out, "note");
    push_string(out, "2024-01-01");
    push_string(out, "tester");
}

fn push_model(out: &mut Vec<u8>) {
    push_keyword(out, "MODL");
    push_word(out, 0);
    push_word(out, 0);
    push_word(out, 1);
    push_string(out, "Project");
    push_string(out, "Model");
}

fn push_group_begin(out: &mut Vec<u8>, name: &str, material_id: u32) {
    push_keyword(out, "CNTB");
    push_word(out, 0);
    push_word(out, 0);
    push_word(out, 1);
    push_string(out, name);
    push_word(out, 0);
    push_word(out, 0);
    push_word(out, 0);
    push_word(out, material_id);
}

fn push_group_end(out: &mut Vec<u8>) {
    push_keyword(out, "CNTE");
    push_word(out, 0);
    push_word(out, 0);
    push_word(out, 0);
}

fn push_box_primitive(out: &mut Vec<u8>, size_x: f32, size_y: f32, size_z: f32) {
    push_keyword(out, "PRIM");
    push_word(out, 0);
    push_word(out, 0);
    push_word(out, 1); // record version
    push_word(out, 2); // type code: box
    for i in 0..12 {
        // An identity linear part with no translation.
        let diagonal = i == 0 || i == 4 || i == 8;
        push_word(out, if diagonal { 1.0f32.to_bits() } else { 0 });
    }
    for _ in 0..6 {
        push_word(out, 0); // bounding box, skipped by the parser
    }
    push_word(out, size_x.to_bits());
    push_word(out, size_y.to_bits());
    push_word(out, size_z.to_bits());
}

fn sample_stream(num_groups: usize) -> Vec<u8> {
    let mut out = Vec::new();
    push_head(&mut out);
    push_model(&mut out);
    for g in 0..num_groups {
        push_group_begin(&mut out, &format!("group{}", g), 3);
        push_box_primitive(&mut out, 2.0, 2.0, 2.0);
        push_group_end(&mut out);
    }
    push_keyword(&mut out, "END");
    out
}

#[test]
fn test_loading_rvm() {
    let rvm_data = sample_stream(2);

    let loader = LoaderRVM::new();
    let cad_data = loader.read_memory(rvm_data, NullTessellator {}).unwrap();

    // One node for the model root plus one per group.
    assert_eq!(cad_data.get_assembly().len(), 3);
    assert_eq!(cad_data.get_length_unit().get_unit_in_nanometers(), 1_000_000);
}

#[test]
fn test_loading_rvm_nested_groups() {
    let mut out = Vec::new();
    push_head(&mut out);
    push_model(&mut out);
    push_group_begin(&mut out, "outer", 1);
    push_group_begin(&mut out, "inner", 2);
    push_group_end(&mut out);
    push_group_end(&mut out);
    push_keyword(&mut out, "END");

    let loader = LoaderRVM::new();
    let cad_data = loader.read_memory(out, NullTessellator {}).unwrap();
    assert_eq!(cad_data.get_assembly().len(), 3);

    let root = cad_data.get_assembly().get_root_node().unwrap();
    assert_eq!(root.get_label(), "Model");
    assert_eq!(root.get_children_node_ids().len(), 1);
}

#[test]
fn test_loading_rvm_with_garbage_prefix() {
    // Garbage bytes before the header are skipped by the keyword scanner.
    let mut out = vec![1, 2, 3, 4, 5];
    out.extend_from_slice(&sample_stream(1));
    let loader = LoaderRVM::new();
    let cad_data = loader.read_memory(out, NullTessellator {}).unwrap();
    assert_eq!(cad_data.get_assembly().len(), 2);
}

#[test]
fn test_loading_rvm_missing_head() {
    let mut out = Vec::new();
    push_model(&mut out);
    push_keyword(&mut out, "END");
    let loader = LoaderRVM::new();
    assert!(loader.read_memory(out, NullTessellator {}).is_err());
}

#[test]
fn test_loading_rvm_unbalanced_group_end() {
    // A group end without a matching begin is a format error.
    let mut out = Vec::new();
    push_head(&mut out);
    push_model(&mut out);
    push_group_end(&mut out);
    push_keyword(&mut out, "END");
    let loader = LoaderRVM::new();
    assert!(loader.read_memory(out, NullTessellator {}).is_err());
}

#[test]
fn test_loading_rvm_end_inside_group() {
    // A stream that closes while a group is still open is a format error.
    let mut out = Vec::new();
    push_head(&mut out);
    push_model(&mut out);
    push_group_begin(&mut out, "open", 0);
    push_keyword(&mut out, "END");
    let loader = LoaderRVM::new();
    assert!(loader.read_memory(out, NullTessellator {}).is_err());
}

#[test]
fn test_loading_rvm_material_out_of_range() {
    let mut out = Vec::new();
    push_head(&mut out);
    push_model(&mut out);
    push_group_begin(&mut out, "bad", 256);
    push_group_end(&mut out);
    push_keyword(&mut out, "END");
    let loader = LoaderRVM::new();
    assert!(loader.read_memory(out, NullTessellator {}).is_err());
}

#[test]
fn test_read_head_fields() {
    let mut out = Vec::new();
    push_head(&mut out);
    let mut parser = RVMParser::new(out);
    let header = parser.read_head().unwrap();
    assert_eq!(header.version, 1);
    assert_eq!(header.banner, "Sample banner");
    assert_eq!(header.file_note, "note");
    assert_eq!(header.date, "2024-01-01");
    assert_eq!(header.user, "tester");
    assert_eq!(header.encoding, "UTF-8");
}

#[test]
fn test_read_head_encoding_mapping() {
    // Version 2 carries an encoding string; the spelled-out name maps to the
    // canonical one.
    let mut out = Vec::new();
    push_keyword(&mut out, "HEAD");
    push_word(&mut out, 0);
    push_word(&mut out, 0);
    push_word(&mut out, 2);
    push_string(&mut out, "banner");
    push_string(&mut out, "note");
    push_string(&mut out, "date");
    push_string(&mut out, "user");
    push_string(&mut out, "Unicode UTF-8");
    let mut parser = RVMParser::new(out);
    let header = parser.read_head().unwrap();
    assert_eq!(header.version, 2);
    assert_eq!(header.encoding, "UTF-8");
}

#[test]
fn test_read_model_fields() {
    let mut out = Vec::new();
    push_model(&mut out);
    let mut parser = RVMParser::new(out);
    let model = parser.read_model().unwrap();
    assert_eq!(model.version, 1);
    assert_eq!(model.project_name, "Project");
    assert_eq!(model.model_name, "Model");
}

#[test]
fn test_read_string_trims_at_nul() {
    let mut out = Vec::new();
    push_string(&mut out, "Hello");
    let mut parser = RVMParser::new(out);
    let s = parser.read_string().unwrap();
    assert_eq!(s, "Hello");
}

#[test]
fn test_decode_box_record() {
    let mut out = Vec::new();
    push_word(&mut out, 2.5f32.to_bits());
    push_word(&mut out, 3.0f32.to_bits());
    push_word(&mut out, 4.0f32.to_bits());
    let mut reader = ByteReader::new(out);
    let primitive = Primitive::from_reader(&mut reader, 2).unwrap();
    match primitive {
        Primitive::Box(b) => {
            assert_eq!(b.size_x(), 2.5f32.to_bits());
            assert_eq!(b.size_y(), 3.0f32.to_bits());
            assert_eq!(b.size_z(), 4.0f32.to_bits());
        },
        _ => panic!("expected a box"),
    }
    assert_eq!(reader.position(), 12);
}

#[test]
fn test_decode_cylinder_record() {
    let mut out = Vec::new();
    push_word(&mut out, 4000.0f32.to_bits());
    push_word(&mut out, 7000.0f32.to_bits());
    let mut reader = ByteReader::new(out);
    let primitive = Primitive::from_reader(&mut reader, 8).unwrap();
    match primitive {
        Primitive::Cylinder(c) => {
            assert_eq!(c.radius(), 4000.0f32.to_bits());
            assert_eq!(c.height(), 7000.0f32.to_bits());
        },
        _ => panic!("expected a cylinder"),
    }
}

#[test]
fn test_decode_unknown_type_code() {
    let mut reader = ByteReader::new(vec![0, 0, 0, 0]);
    let result = Primitive::from_reader(&mut reader, 12);
    assert!(result.is_err());
    // Nothing is consumed for an unknown code.
    assert_eq!(reader.position(), 0);
}

#[test]
fn test_decode_truncated_record() {
    let mut reader = ByteReader::new(vec![0, 0, 0, 0]);
    assert!(Primitive::from_reader(&mut reader, 2).is_err());
}

#[test]
fn test_decode_polygons_record() {
    let mut out = Vec::new();
    push_word(&mut out, 1); // one polygon
    push_word(&mut out, 1); // one contour
    push_word(&mut out, 3); // three vertices
    for i in 0..18 {
        push_word(&mut out, (i as f32).to_bits());
    }
    let mut reader = ByteReader::new(out);
    let primitive = Primitive::from_reader(&mut reader, 11).unwrap();
    match primitive {
        Primitive::Polygons(p) => {
            assert_eq!(p.inner.len(), 1);
            assert_eq!(p.inner[0].contours.len(), 1);
            assert_eq!(p.inner[0].contours[0].inner.len(), 3);
            assert_eq!(p.inner[0].contours[0].inner[0].inner[0], 0.0f32.to_bits());
            assert_eq!(p.inner[0].contours[0].inner[2].inner[5], 17.0f32.to_bits());
        },
        _ => panic!("expected polygons"),
    }
}

#[test]
fn test_decode_polygons_zero_contour_count() {
    // A zero contour count is a format error, not an empty result.
    let mut out = Vec::new();
    push_word(&mut out, 1); // one polygon
    push_word(&mut out, 0); // zero contours
    let mut reader = ByteReader::new(out);
    assert!(Primitive::from_reader(&mut reader, 11).is_err());
}

#[test]
fn test_decode_polygons_zero_vertex_count() {
    let mut out = Vec::new();
    push_word(&mut out, 1);
    push_word(&mut out, 1);
    push_word(&mut out, 0); // zero vertices
    let mut reader = ByteReader::new(out);
    assert!(Primitive::from_reader(&mut reader, 11).is_err());
}

#[test]
fn test_end_group_below_root_fails() {
    // Ending a group when only the root is open fails deterministically and
    // leaves the tree as it was.
    let mut creator: CADDataCreator<NullTessellator> = CADDataCreator::new(NullTessellator {});
    creator.model(cad_import::loader::loader_rvm::RVMModelHeader {
        version: 1,
        project_name: "p".to_owned(),
        model_name: "m".to_owned(),
    })
        .unwrap();
    assert!(creator.end_group().is_err());
    assert!(creator.end_group().is_err());
    let cad_data = creator.to_cad_data();
    assert_eq!(cad_data.get_assembly().len(), 1);
}

#[test]
fn test_begin_group_before_model_fails() {
    let mut creator: CADDataCreator<NullTessellator> = CADDataCreator::new(NullTessellator {});
    assert!(creator.begin_group("g".to_owned(), &[0, 0, 0], 0).is_err());
}

#[test]
fn test_node_count_follows_groups() {
    let mut creator: CADDataCreator<NullTessellator> = CADDataCreator::new(NullTessellator {});
    creator.model(cad_import::loader::loader_rvm::RVMModelHeader {
        version: 1,
        project_name: "p".to_owned(),
        model_name: "m".to_owned(),
    })
        .unwrap();
    creator.begin_group("a".to_owned(), &[0, 0, 0], 1).unwrap();
    creator.end_group().unwrap();
    creator.begin_group("b".to_owned(), &[0, 0, 0], 2).unwrap();
    creator.begin_group("c".to_owned(), &[0, 0, 0], 3).unwrap();
    creator.end_group().unwrap();
    creator.end_group().unwrap();
    let cad_data = creator.to_cad_data();
    assert_eq!(cad_data.get_assembly().len(), 4);
}

#[test]
fn test_material_palette() {
    let mut manager = RVMMaterialManager::new();
    let c = manager.color(2);
    assert_eq!((c.red, c.green, c.blue), (80, 0, 0));
    let c = manager.color(0);
    assert_eq!((c.red, c.green, c.blue), (80, 80, 80));

    let material = manager.create_material(2);
    match *material {
        Material::PhongMaterial(data) => {
            assert_eq!(
                (data.diffuse_color.red, data.diffuse_color.green, data.diffuse_color.blue),
                (80, 0, 0)
            );
            assert_eq!(data.ambient_intensity_thousandths, 200);
        },
        _ => panic!("expected a resolved material"),
    }

    // The same index resolves to the same shared material.
    let again = manager.create_material(2);
    assert!(std::rc::Rc::ptr_eq(&material, &again));
}

/// A tessellator producing one fixed triangle for every supported kind.
struct TriangleTessellator {}

impl Tessellator for TriangleTessellator {
    fn tessellate(
        &mut self,
        _primitive: &Primitive,
        _matrix: &[u32; 12],
    ) -> Result<Option<Mesh>, cad_import::Error> {
        let positions = vec![
            Point3D::new(0, 0, 0),
            Point3D::new(1, 0, 0),
            Point3D::new(0, 1, 0),
        ];
        let vertices = Vertices::from_positions(positions);
        let primitives = Primitives::new(IndexData::Indices(vec![0, 1, 2]), PrimitiveType::Triangles)
            .unwrap();
        Ok(Some(Mesh::new(vertices, primitives).unwrap()))
    }
}

fn push_snout_primitive(out: &mut Vec<u8>) {
    push_keyword(out, "PRIM");
    push_word(out, 0);
    push_word(out, 0);
    push_word(out, 1); // record version
    push_word(out, 7); // type code: snout, a kind the builder skips
    for i in 0..12 {
        let diagonal = i == 0 || i == 4 || i == 8;
        push_word(out, if diagonal { 1.0f32.to_bits() } else { 0 });
    }
    for _ in 0..6 {
        push_word(out, 0);
    }
    for _ in 0..9 {
        push_word(out, 0); // snout payload
    }
}

#[test]
fn test_primitive_mesh_attached_to_group() {
    // A supported primitive whose tessellation succeeds becomes exactly one
    // shape part on the enclosing group's node.
    let mut out = Vec::new();
    push_head(&mut out);
    push_model(&mut out);
    push_group_begin(&mut out, "group", 1);
    push_box_primitive(&mut out, 2.0, 2.0, 2.0);
    push_group_end(&mut out);
    push_keyword(&mut out, "END");

    let loader = LoaderRVM::new();
    let cad_data = loader.read_memory(out, TriangleTessellator {}).unwrap();
    let tree = cad_data.get_assembly();
    assert_eq!(tree.len(), 2);
    let root = tree.get_root_node().unwrap();
    let group = tree.get_node(root.get_children_node_ids()[0]).unwrap();
    let shapes = group.get_shapes();
    assert_eq!(shapes.len(), 1);
    assert_eq!(shapes[0].get_parts().len(), 1);
    assert_eq!(shapes[0].get_parts()[0].get_mesh().get_vertices().len(), 3);
}

#[test]
fn test_unsupported_primitive_kind_skipped() {
    // An unsupported kind is skipped: no shape is accumulated, even with a
    // tessellator that would produce meshes.
    let mut out = Vec::new();
    push_head(&mut out);
    push_model(&mut out);
    push_group_begin(&mut out, "group", 1);
    push_snout_primitive(&mut out);
    push_group_end(&mut out);
    push_keyword(&mut out, "END");

    let loader = LoaderRVM::new();
    let cad_data = loader.read_memory(out, TriangleTessellator {}).unwrap();
    let tree = cad_data.get_assembly();
    assert_eq!(tree.len(), 2);
    let root = tree.get_root_node().unwrap();
    let group = tree.get_node(root.get_children_node_ids()[0]).unwrap();
    assert_eq!(group.get_shapes().len(), 0);
}

#[test]
fn test_two_primitives_one_shape_two_parts() {
    // Two tessellated primitives in one group accumulate into one shared
    // shape with two parts.
    let mut out = Vec::new();
    push_head(&mut out);
    push_model(&mut out);
    push_group_begin(&mut out, "group", 1);
    push_box_primitive(&mut out, 1.0, 1.0, 1.0);
    push_box_primitive(&mut out, 2.0, 2.0, 2.0);
    push_group_end(&mut out);
    push_keyword(&mut out, "END");

    let loader = LoaderRVM::new();
    let cad_data = loader.read_memory(out, TriangleTessellator {}).unwrap();
    let tree = cad_data.get_assembly();
    let root = tree.get_root_node().unwrap();
    let group = tree.get_node(root.get_children_node_ids()[0]).unwrap();
    let shapes = group.get_shapes();
    assert_eq!(shapes.len(), 1);
    assert_eq!(shapes[0].get_parts().len(), 2);
}
