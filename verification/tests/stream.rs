use libisdb::stream::{Stream, MemoryStream, SetPosType};

#[test]
fn test_read_sequential() {
    let mut s = MemoryStream::new(vec![1, 2, 3, 4, 5]);
    assert!(s.is_open());
    let mut buf = [0u8; 3];
    assert_eq!(s.read(&mut buf), 3);
    assert_eq!(buf, [1, 2, 3]);
    assert!(!s.is_end());
    assert_eq!(s.read(&mut buf), 2);
    assert_eq!(&buf[..2], &[4, 5]);
    assert!(s.is_end());
    assert_eq!(s.read(&mut buf), 0);
}

#[test]
fn test_read_empty_buffer() {
    let mut s = MemoryStream::new(vec![1, 2, 3]);
    let mut empty: [u8; 0] = [];
    assert_eq!(s.read(&mut empty), 0);
}

#[test]
fn test_is_end_on_empty_stream() {
    let s = MemoryStream::empty();
    assert!(s.is_end());
}

#[test]
fn test_write_then_read_back() {
    let mut s = MemoryStream::empty();
    assert_eq!(s.write(&[10, 20, 30]), 3);
    assert_eq!(s.get_size(), 3);
    assert_eq!(s.get_pos(), 3);
    assert!(s.set_pos(0, SetPosType::Begin));
    let mut buf = [0u8; 3];
    assert_eq!(s.read(&mut buf), 3);
    assert_eq!(buf, [10, 20, 30]);
}

#[test]
fn test_set_pos_variants() {
    let mut s = MemoryStream::new(vec![0; 10]);
    assert!(s.set_pos(3, SetPosType::Begin));
    assert_eq!(s.get_pos(), 3);
    assert!(s.set_pos(2, SetPosType::Current));
    assert_eq!(s.get_pos(), 5);
    assert!(s.set_pos(-1, SetPosType::End));
    assert_eq!(s.get_pos(), 9);
    // 負の位置は不可
    assert!(!s.set_pos(-1, SetPosType::Begin));
    assert_eq!(s.get_pos(), 9);
}

#[test]
fn test_close_blocks_io() {
    let mut s = MemoryStream::new(vec![1, 2, 3]);
    assert!(s.close());
    assert!(!s.is_open());
    let mut buf = [0u8; 3];
    assert_eq!(s.read(&mut buf), 0);
    assert_eq!(s.write(&[9]), 0);
}

#[test]
fn test_get_size() {
    let mut s = MemoryStream::new(vec![0; 42]);
    assert_eq!(s.get_size(), 42);
}
