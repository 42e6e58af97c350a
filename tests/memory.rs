use wasm_instance::memory::LinearMemory;

#[test]
fn new_memory_is_zeroed() {
    let m = LinearMemory::new(2, None).unwrap();
    assert_eq!(m.current_size(), 2);
    assert_eq!(m.byte_len(), 2 * 65536);
    assert!(m.as_slice().iter().all(|b| *b == 0));
    assert!(LinearMemory::new(3, Some(2)).is_none());
}

#[test]
fn grow_within_and_past_maximum() {
    let mut m = LinearMemory::new(1, Some(4)).unwrap();
    assert!(m.write_bytes(0, &[7, 7]));
    let g = m.buffer_generation();
    assert_eq!(m.grow(4), None);
    assert_eq!(m.current_size(), 1);
    assert_eq!(m.buffer_generation(), g);
    assert_eq!(m.grow(3), Some(1));
    assert_eq!(m.current_size(), 4);
    assert_ne!(m.buffer_generation(), g);
    assert_eq!(m.read_bytes(0, 3), Some(vec![7, 7, 0]));
    assert_eq!(m.read_bytes(4 * 65536 - 1, 1), Some(vec![0]));
    assert_eq!(m.grow(0), Some(4));
    assert_eq!(m.grow(1), None);
}

#[test]
fn write_past_end_is_refused() {
    let mut m = LinearMemory::new(1, None).unwrap();
    assert!(!m.write_bytes(65535, &[1, 2]));
    assert!(m.write_bytes(65534, &[1, 2]));
    assert_eq!(m.read_bytes(65534, 2), Some(vec![1, 2]));
    assert_eq!(m.maximum(), None);
}
