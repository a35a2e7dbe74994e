use libisdb::data_storage::{DataStorage, DataStorageManager, MemoryDataStorage, MemoryDataStorageManager};

#[test]
fn test_new_is_unallocated() {
    let s = MemoryDataStorage::new();
    assert_eq!(s.get_capacity(), 0);
    assert_eq!(s.get_data_size(), 0);
    assert_eq!(s.get_pos(), 0);
    assert!(!s.is_allocated());
}

#[test]
fn test_allocate() {
    let mut s = MemoryDataStorage::new();
    assert!(s.allocate(100));
    assert_eq!(s.get_capacity(), 100);
    assert_eq!(s.get_data_size(), 0);
    assert_eq!(s.get_pos(), 0);
    assert!(s.is_allocated());
    assert!(!s.is_full());
    assert!(!s.is_end());
}

#[test]
fn test_write_then_read() {
    let mut s = MemoryDataStorage::new();
    s.allocate(10);
    let written = s.write(&[1, 2, 3]);
    assert_eq!(written, 3);
    assert_eq!(s.get_pos(), 3);
    assert_eq!(s.get_data_size(), 3);

    s.set_pos(0);
    let mut buf = [0u8; 3];
    let read = s.read(&mut buf);
    assert_eq!(read, 3);
    assert_eq!(buf, [1, 2, 3]);
}

#[test]
fn test_write_limited_by_capacity() {
    let mut s = MemoryDataStorage::new();
    s.allocate(4);
    let written = s.write(&[1, 2, 3, 4, 5, 6]);
    assert_eq!(written, 4);
    assert_eq!(s.get_pos(), 4);
    assert_eq!(s.get_data_size(), 4);
}

#[test]
fn test_write_at_capacity_returns_zero() {
    let mut s = MemoryDataStorage::new();
    s.allocate(3);
    s.write(&[1, 2, 3]);
    let written = s.write(&[4]);
    assert_eq!(written, 0);
}

#[test]
fn test_read_limited_by_data_size() {
    let mut s = MemoryDataStorage::new();
    s.allocate(10);
    s.write(&[1, 2, 3]);
    s.set_pos(0);
    let mut buf = [0u8; 10];
    let read = s.read(&mut buf);
    assert_eq!(read, 3);
    assert_eq!(&buf[..3], &[1, 2, 3]);
}

#[test]
fn test_read_at_data_size_returns_zero() {
    let mut s = MemoryDataStorage::new();
    s.allocate(10);
    s.write(&[1, 2, 3]);
    // pos == data_size → read returns 0
    let mut buf = [0u8; 5];
    let read = s.read(&mut buf);
    assert_eq!(read, 0);
}

#[test]
fn test_set_pos_seek() {
    let mut s = MemoryDataStorage::new();
    s.allocate(10);
    s.write(&[10, 20, 30, 40, 50]);
    s.set_pos(2);
    let mut buf = [0u8; 3];
    let read = s.read(&mut buf);
    assert_eq!(read, 3);
    assert_eq!(buf, [30, 40, 50]);
}

#[test]
fn test_set_pos_boundary() {
    let mut s = MemoryDataStorage::new();
    s.allocate(10);
    assert!(s.set_pos(10));  // at capacity: ok (DataStorage.cpp:113: Pos > GetBufferSize)
    assert!(!s.set_pos(11)); // beyond capacity: fails
}

#[test]
fn test_is_full_and_is_end() {
    let mut s = MemoryDataStorage::new();
    s.allocate(3);
    s.write(&[1, 2, 3]);
    assert!(s.is_full()); // get_capacity(3) <= get_data_size(3)
    assert!(s.is_end());  // get_capacity(3) <= get_pos(3)
}

#[test]
fn test_free() {
    let mut s = MemoryDataStorage::new();
    s.allocate(100);
    s.write(&[1, 2, 3]);
    s.free();
    assert_eq!(s.get_capacity(), 0);
    assert_eq!(s.get_data_size(), 0);
    assert_eq!(s.get_pos(), 0);
    assert!(!s.is_allocated());
}

// StreamBuffer の QueueBlock が行う Write → Reuse(SetPos(0)) → Write → Read パターン
#[test]
fn test_reuse_pattern() {
    let mut s = MemoryDataStorage::new();
    s.allocate(10);

    // 1st write
    let w1 = s.write(&[1, 2, 3, 4, 5]);
    assert_eq!(w1, 5);
    let write_pos = s.get_pos(); // 5 (= QueueBlock::GetDataSize via GetPos)

    // QueueBlock::Read simulation: save pos, seek to 0, read, restore pos
    s.set_pos(0);
    let mut buf = [0u8; 5];
    let r1 = s.read(&mut buf);
    assert_eq!(r1, 5);
    assert_eq!(buf, [1, 2, 3, 4, 5]);
    s.set_pos(write_pos);

    // Reuse: QueueBlock::Reuse() -> m_Storage->SetPos(0)
    assert!(s.set_pos(0));

    // 2nd write after reuse
    let w2 = s.write(&[10, 20]);
    assert_eq!(w2, 2);
    assert_eq!(s.get_pos(), 2);

    // Read after reuse (QueueBlock::Read with Pos=2)
    s.set_pos(0);
    let mut buf2 = [0u8; 2];
    let r2 = s.read(&mut buf2);
    assert_eq!(r2, 2);
    assert_eq!(buf2, [10, 20]);
    s.set_pos(2);
}

#[test]
fn test_memory_data_storage_manager() {
    let manager = MemoryDataStorageManager;
    let mut storage = manager.create_data_storage();
    assert!(!storage.is_allocated());
    assert!(storage.allocate(50));
    assert_eq!(storage.get_capacity(), 50);
    assert!(storage.is_allocated());
    assert!(!storage.is_full());

    let written = storage.write(&[0xAB; 50]);
    assert_eq!(written, 50);
    assert!(storage.is_full());
    assert!(storage.is_end());
}
