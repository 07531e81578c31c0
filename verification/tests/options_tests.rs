use std::sync::Arc;

use cad_import::loader::EnumDescriptor;
use cad_import::loader::EnumValue;

#[test]
fn test_enum_descriptor_from_iterator() {
    let enum_descriptor = EnumDescriptor::from_iter(vec![
        "a".to_owned(),
        "c".to_owned(),
        "b".to_owned(),
    ]);
    assert_eq!(enum_descriptor.get_options().as_slice(), ["a", "c", "b"]);

    let enum_descriptor = EnumDescriptor::from_iter(vec![
        "a".to_owned(),
        "c".to_owned(),
        "b".to_owned(),
        "a".to_owned(),
    ]);
    assert_eq!(enum_descriptor.get_options().as_slice(), ["a", "c", "b"]);
}

#[test]
fn test_enum_value_set_option() {
    let enum_descriptor = EnumDescriptor::from_iter(vec![
        "a".to_owned(),
        "c".to_owned(),
        "b".to_owned(),
    ]);
    assert_eq!(enum_descriptor.get_options().as_slice(), ["a", "c", "b"]);
    let enum_descriptor = Arc::new(enum_descriptor);

    let mut enum_value = EnumValue::new(enum_descriptor);
    assert!(enum_value.is_empty());

    enum_value.set_value("a").unwrap();
    assert_eq!(enum_value.get_value(), Some("a"));
    enum_value.set_value("b").unwrap();
    assert_eq!(enum_value.get_value(), Some("b"));
    enum_value.set_value("c").unwrap();
    assert_eq!(enum_value.get_value(), Some("c"));

    assert!(enum_value.set_value("d").is_err());
    assert_eq!(enum_value.get_value(), Some("c"));
}
