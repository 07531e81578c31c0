use cad_import::loader::LoaderOff;
use cad_import::structure::PrimitiveType;

#[test]
fn test_off_read_header() {
    assert!(LoaderOff::read_header(Some(&(0, "OFF".to_owned()))).is_ok());
    assert!(LoaderOff::read_header(Some(&(0, "  OFF  ".to_owned()))).is_ok());
    assert!(LoaderOff::read_header(Some(&(0, "PLY".to_owned()))).is_err());
    assert!(LoaderOff::read_header(Some(&(0, "OFF extra".to_owned()))).is_err());
    assert!(LoaderOff::read_header(None).is_err());
}

#[test]
fn test_off_read_line() {
    let line = (4usize, "content".to_owned());
    let (number, content) = LoaderOff::read_line(Some(&line)).unwrap();
    assert_eq!(number, 5);
    assert_eq!(content, "content");
    assert!(LoaderOff::read_line(None).is_err());
}

#[test]
fn test_off_read_number() {
    let tokens = LoaderOff::split_tokens("12 034 x9");
    assert_eq!(LoaderOff::read_number(&tokens, 0, 1).unwrap(), 12);
    assert_eq!(LoaderOff::read_number(&tokens, 1, 1).unwrap(), 34);
    // A token with a non-digit is a format error.
    assert!(LoaderOff::read_number(&tokens, 2, 1).is_err());
    // A missing token is an input error.
    assert!(LoaderOff::read_number(&tokens, 3, 1).is_err());
}

#[test]
fn test_off_read_num_vertices_and_faces() {
    let line = (1usize, "8 6 12".to_owned());
    let (num_vertices, num_faces) = LoaderOff::read_num_vertices_and_faces(Some(&line)).unwrap();
    assert_eq!(num_vertices, 8);
    assert_eq!(num_faces, 6);

    let bad = (1usize, "8".to_owned());
    assert!(LoaderOff::read_num_vertices_and_faces(Some(&bad)).is_err());
}

#[test]
fn test_off_read_primitives_fan() {
    // A quad face triangulates into a fan around its first vertex.
    let face_lines = vec![(2usize, "4 0 1 2 3".to_owned())];
    let primitives = LoaderOff::read_primitives(&face_lines, 1, 4).unwrap();
    assert_eq!(primitives.get_primitive_type(), PrimitiveType::Triangles);
    let indices = primitives.get_raw_index_data().get_indices_ref().unwrap();
    assert_eq!(indices.as_slice(), &[0, 1, 2, 0, 2, 3]);
}

#[test]
fn test_off_read_primitives_rejects_bad_index() {
    // An index at or beyond the vertex count is a format error.
    let face_lines = vec![(2usize, "3 0 1 4".to_owned())];
    assert!(LoaderOff::read_primitives(&face_lines, 1, 4).is_err());
}

#[test]
fn test_off_read_primitives_rejects_short_face() {
    let face_lines = vec![(2usize, "2 0 1".to_owned())];
    assert!(LoaderOff::read_primitives(&face_lines, 1, 4).is_err());
}

#[test]
fn test_off_read_primitives_multiple_faces() {
    let face_lines = vec![
        (2usize, "3 0 1 2".to_owned()),
        (3usize, "3 2 1 3".to_owned()),
    ];
    let primitives = LoaderOff::read_primitives(&face_lines, 2, 4).unwrap();
    let indices = primitives.get_raw_index_data().get_indices_ref().unwrap();
    assert_eq!(indices.as_slice(), &[0, 1, 2, 2, 1, 3]);
}
