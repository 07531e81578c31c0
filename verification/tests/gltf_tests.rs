use cad_import::loader::AccessorIterator;
use cad_import::loader::FileResource;
use cad_import::loader::MemoryResource;
use cad_import::loader::Resource;

#[test]
fn test_accessor_iterator_packed() {
    // Zero stride means tightly packed elements of the element size.
    let buffer: Vec<u8> = (0..12).collect();
    let mut it = AccessorIterator::new(buffer.as_slice(), 3, 0, 4, 0, 0);
    assert_eq!(it.next().unwrap(), vec![0, 1, 2, 3]);
    assert_eq!(it.next().unwrap(), vec![4, 5, 6, 7]);
    assert_eq!(it.next().unwrap(), vec![8, 9, 10, 11]);
    assert!(it.next().is_none());
}

#[test]
fn test_accessor_iterator_strided() {
    // A stride larger than the element size skips interleaved bytes, and the
    // offsets add up.
    let buffer: Vec<u8> = (0..20).collect();
    let mut it = AccessorIterator::new(buffer.as_slice(), 2, 8, 2, 1, 2);
    assert_eq!(it.next().unwrap(), vec![3, 4]);
    assert_eq!(it.next().unwrap(), vec![11, 12]);
    assert!(it.next().is_none());
}

#[test]
fn test_accessor_iterator_stops_at_buffer_end() {
    // An element that would reach past the buffer is not yielded.
    let buffer: Vec<u8> = (0..5).collect();
    let mut it = AccessorIterator::new(buffer.as_slice(), 2, 0, 4, 0, 0);
    assert_eq!(it.next().unwrap(), vec![0, 1, 2, 3]);
    assert!(it.next().is_none());
}

#[test]
fn test_memory_resource() {
    let r = MemoryResource::new(vec![1, 2, 3], "model/vnd.off".to_owned());
    assert_eq!(r.get_mime_type(), "model/vnd.off");
    assert_eq!(r.get_data().as_slice(), &[1, 2, 3]);
    assert_eq!(r.to_bytes(), vec![1, 2, 3]);
}

#[test]
fn test_file_resource() {
    let r = FileResource::new("/path/to/file.txt".to_owned(), "text/plain");
    assert_eq!(r.get_mime_type(), "text/plain");
    assert_eq!(r.get_path(), "/path/to/file.txt");
}
