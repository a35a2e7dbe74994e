use libisdb::stream_writer::{MemoryStreamWriter, OpenFlag, StreamWriter};

#[test]
fn test_open_close_state() {
    let mut w = MemoryStreamWriter::new();
    assert!(!w.is_open());
    assert!(w.open("a.ts", OpenFlag::NONE));
    assert!(w.is_open());
    assert!(w.is_write_size_available());
    w.close();
    assert!(!w.is_open());
    assert!(!w.is_write_size_available());
}

#[test]
fn test_open_twice_fails() {
    let mut w = MemoryStreamWriter::new();
    assert!(w.open("a.ts", OpenFlag::NONE));
    // 既に開いていれば false
    assert!(!w.open("b.ts", OpenFlag::OVERWRITE));
    // 元のファイル名のまま
    assert_eq!(w.get_file_name().as_deref(), Some("a.ts"));
}

#[test]
fn test_write_accumulates() {
    let mut w = MemoryStreamWriter::new();
    w.open("a.ts", OpenFlag::NONE);
    assert_eq!(w.write(&[1, 2, 3]), 3);
    assert_eq!(w.write(&[4, 5]), 2);
    assert_eq!(w.get_write_size(), 5);
    assert_eq!(w.data(), Some(&[1u8, 2, 3, 4, 5][..]));
}

#[test]
fn test_write_when_closed_returns_zero() {
    let mut w = MemoryStreamWriter::new();
    assert_eq!(w.write(&[1, 2, 3]), 0);
    assert_eq!(w.get_write_size(), 0);
}

#[test]
fn test_open_resets_write_size() {
    let mut w = MemoryStreamWriter::new();
    w.open("a.ts", OpenFlag::NONE);
    w.write(&[0; 10]);
    assert_eq!(w.get_write_size(), 10);
    w.close();
    // 再オープンは write_size を 0 に戻す(C++ Open と同じ)
    assert!(w.open("b.ts", OpenFlag::NONE));
    assert_eq!(w.get_write_size(), 0);
}

#[test]
fn test_reopen_keeps_write_size_and_resets_buffer() {
    let mut w = MemoryStreamWriter::new();
    w.open("a.ts", OpenFlag::NONE);
    w.write(&[1, 2, 3]);
    assert_eq!(w.get_write_size(), 3);
    // Reopen は write_size をリセットせず、バッファだけ作り直す(C++ 同様)
    assert!(w.reopen("b.ts", OpenFlag::OVERWRITE));
    assert_eq!(w.get_file_name().as_deref(), Some("b.ts"));
    assert_eq!(w.data(), Some(&[][..]));
    w.write(&[9]);
    assert_eq!(w.get_write_size(), 4);
}

#[test]
fn test_get_file_name_when_closed_is_none() {
    let w = MemoryStreamWriter::new();
    assert_eq!(w.get_file_name(), None);
}

#[test]
fn test_set_preallocation_unit_default_false() {
    let mut w = MemoryStreamWriter::new();
    w.open("a.ts", OpenFlag::NONE);
    assert!(!w.set_preallocation_unit(1024 * 1024));
}
