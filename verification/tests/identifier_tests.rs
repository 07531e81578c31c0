use std::str::FromStr;

use cad_import::loader::loader_rvm::ByteReader;
use cad_import::loader::loader_rvm::Identifier;
use cad_import::loader::loader_rvm::IdentifierReader;

/// Encodes a keyword as successive big-endian words whose low byte is one
/// character each.
fn encode_keyword(out: &mut Vec<u8>, keyword: &str) {
    for c in keyword.bytes() {
        out.extend_from_slice(&[0, 0, 0, c]);
    }
    if keyword.len() == 3 {
        // A three-character keyword occupies only three words.
        return;
    }
}

#[test]
fn test_identifier_basics() {
    let i0 = Identifier::from_str("MODL").unwrap();
    assert!(i0.is_valid());
    assert!(!i0.is_empty());

    let i0 = Identifier::from_str("MODX").unwrap();
    assert!(!i0.is_valid());
    assert!(!i0.is_empty());

    let i1: Identifier = Default::default();
    assert!(i1.is_empty());
}

#[test]
fn test_identifier_read_end() {
    // END is recognized after three words; nothing further is consumed.
    let mut data = Vec::new();
    encode_keyword(&mut data, "END");
    data.extend_from_slice(&[1, 2, 3, 4]);
    let mut r = ByteReader::new(data);
    let id = Identifier::read(&mut r).unwrap();
    assert_eq!(&id.get_chars(), b"END\0");
    assert_eq!(r.position(), 12);
}

#[test]
fn test_identifier_read_four_chars() {
    let mut data = Vec::new();
    encode_keyword(&mut data, "CNTB");
    let mut r = ByteReader::new(data);
    let id = Identifier::read(&mut r).unwrap();
    assert_eq!(&id.get_chars(), b"CNTB");
    assert!(id.is_valid());
    assert_eq!(r.position(), 16);
}

#[test]
fn test_identifier_read_garbage_word() {
    // A word whose upper bytes are not zero yields the empty identifier and
    // consumes exactly three words.
    let data = vec![9, 9, 9, 9, 0, 0, 0, 0, 0, 0, 0, 0, 0, 0, 0, 0];
    let mut r = ByteReader::new(data);
    let id = Identifier::read(&mut r).unwrap();
    assert!(id.is_empty());
    assert_eq!(r.position(), 12);
}

#[test]
fn test_scanner_skips_garbage() {
    // Arbitrary garbage followed by a validly aligned keyword: the scanner
    // returns that keyword and consumes exactly through its last byte.
    let mut data = vec![7, 7, 7, 42, 1, 2, 3];
    let garbage_len = data.len();
    encode_keyword(&mut data, "PRIM");
    data.extend_from_slice(&[5, 5, 5, 5]);
    let mut r = ByteReader::new(data);
    let scanner = IdentifierReader::new();
    let id = scanner.read(&mut r).unwrap();
    assert_eq!(&id.get_chars(), b"PRIM");
    assert_eq!(r.position(), garbage_len + 16);
}

#[test]
fn test_scanner_reports_missing_keyword() {
    // A stream that ends before any valid keyword is an error.
    let data = vec![0u8; 11];
    let mut r = ByteReader::new(data);
    let scanner = IdentifierReader::new();
    assert!(scanner.read(&mut r).is_err());

    // All-zero words never spell a valid keyword either.
    let data = vec![0u8; 64];
    let mut r = ByteReader::new(data);
    assert!(scanner.read(&mut r).is_err());
}

#[test]
fn test_scanner_finds_end_after_misaligned_prefix() {
    // One leading byte of garbage misaligns the words; the scanner discards
    // it and still finds the keyword.
    let mut data = vec![99u8];
    encode_keyword(&mut data, "HEAD");
    let mut r = ByteReader::new(data);
    let scanner = IdentifierReader::new();
    let id = scanner.read(&mut r).unwrap();
    assert_eq!(&id.get_chars(), b"HEAD");
    assert_eq!(r.position(), 17);
}
