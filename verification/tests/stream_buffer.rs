use libisdb::stream_buffer::{StreamBuffer, StreamBufferInner, SequentialReader, Reader, POS_INVALID};
use std::sync::Arc;

fn make_buf(block_size: usize, min: usize, max: usize) -> Arc<StreamBuffer> {
    let buf = Arc::new(StreamBuffer::new());
    assert!(buf.create(block_size, min, max, None));
    buf
}

#[test]
fn test_create_and_is_created() {
    let buf = StreamBuffer::new();
    assert!(!buf.is_created());
    assert!(buf.create(100, 1, 4, None));
    assert!(buf.is_created());
    assert_eq!(buf.get_block_size(), 100);
    assert_eq!(buf.get_min_block_count(), 1);
    assert_eq!(buf.get_max_block_count(), 4);
}

#[test]
fn test_create_invalid_params() {
    let buf = StreamBuffer::new();
    assert!(!buf.create(0, 1, 4, None));    // block_size == 0
    assert!(!buf.create(100, 0, 0, None));  // max_block_count == 0
    assert!(!buf.create(100, 5, 3, None));  // min > max
}

#[test]
fn test_destroy() {
    let buf = make_buf(100, 1, 4);
    buf.push_back(&[1u8; 100]);
    buf.destroy();
    assert!(!buf.is_created());
    assert!(buf.is_empty());
}

#[test]
fn test_push_back_and_is_empty_is_full() {
    let buf = make_buf(10, 1, 2);
    assert!(buf.is_empty());
    assert!(!buf.is_full());

    let n = buf.push_back(&[0u8; 10]);
    assert_eq!(n, 10);
    assert!(!buf.is_empty());
    assert!(!buf.is_full()); // 1 block filled, max is 2

    let n2 = buf.push_back(&[1u8; 10]);
    assert_eq!(n2, 10);
    assert!(buf.is_full()); // 2 blocks filled = max
}

#[test]
fn test_push_back_spills_to_next_block() {
    let buf = make_buf(10, 1, 3);
    // 25 bytes -> spills across 3 blocks
    let n = buf.push_back(&(0u8..25).collect::<Vec<u8>>());
    assert_eq!(n, 25);
}

#[test]
fn test_push_back_reuses_oldest_block() {
    // max=2 blocks of 5 bytes each
    let buf = make_buf(5, 1, 2);
    buf.push_back(&[1u8; 5]); // block0: serial_pos=0
    buf.push_back(&[2u8; 5]); // block1: serial_pos=5  -> now full
    // pushing more data: block0 has no reader lock -> reuse
    let n = buf.push_back(&[3u8; 5]);
    assert_eq!(n, 5);
    assert_eq!(buf.get_end_pos(), 15);
}

#[test]
fn test_clear() {
    let buf = make_buf(10, 1, 4);
    buf.push_back(&[0u8; 30]);
    assert!(!buf.is_empty());
    buf.clear();
    assert!(buf.is_empty());
}

#[test]
fn test_get_begin_end_pos() {
    let buf = make_buf(10, 1, 4);
    assert_eq!(buf.get_begin_pos(), 0);
    assert_eq!(buf.get_end_pos(), 0);
    assert!(buf.get_data_range().is_none());

    buf.push_back(&[0u8; 15]);
    let (begin, end) = buf.get_data_range().unwrap();
    assert_eq!(begin, 0);
    assert_eq!(end, 15);
}

#[test]
fn test_sequential_reader_basic_read() {
    let buf = make_buf(10, 1, 4);
    let data: Vec<u8> = (0..20).collect();
    buf.push_back(&data);

    let mut reader = SequentialReader::new();
    assert!(!reader.is_open());
    assert!(reader.open(Arc::clone(&buf)));
    assert!(reader.is_open());

    let mut out = vec![0u8; 20];
    let n = reader.read(&mut out);
    assert_eq!(n, 20);
    assert_eq!(out, data);
}

#[test]
fn test_sequential_reader_read_across_blocks() {
    // block=5 x max=4 = 20 bytes capacity
    let buf = make_buf(5, 1, 4);
    let data: Vec<u8> = (0u8..20).collect();
    let pushed = buf.push_back(&data);
    assert_eq!(pushed, 20);

    let mut reader = SequentialReader::new();
    reader.open(Arc::clone(&buf));

    let mut out = vec![0u8; 20];
    let n = reader.read(&mut out);
    assert_eq!(n, 20);
    assert_eq!(out, data);
}

#[test]
fn test_sequential_reader_seek_to_begin() {
    // with min=2, blocks already read stay in the buffer, so seek_to_begin goes back to 0
    let buf = make_buf(10, 2, 4);
    buf.push_back(&[1u8; 20]);

    let mut reader = SequentialReader::new();
    reader.open(Arc::clone(&buf));

    let mut tmp = [0u8; 20];
    reader.read(&mut tmp);
    assert_eq!(reader.get_pos(), 20);

    // begin_pos is the front block (kept because min=2) -> still 0
    assert!(reader.seek_to_begin());
    assert_eq!(reader.get_pos(), 0);

    let mut out = [0u8; 20];
    let n = reader.read(&mut out);
    assert_eq!(n, 20);
}

#[test]
fn test_sequential_reader_seek_to_end() {
    let buf = make_buf(10, 1, 4);
    buf.push_back(&[0u8; 30]);

    let mut reader = SequentialReader::new();
    reader.open(Arc::clone(&buf));

    reader.seek_to_end();
    assert_eq!(reader.get_pos(), 30);

    // no more data
    let mut out = [0u8; 10];
    let n = reader.read(&mut out);
    assert_eq!(n, 0);
}

#[test]
fn test_is_data_available() {
    let buf = make_buf(10, 1, 4);
    let mut reader = SequentialReader::new();
    reader.open(Arc::clone(&buf));

    assert!(!reader.is_data_available()); // empty

    buf.push_back(&[1u8; 10]);
    assert!(reader.is_data_available());

    // read it all
    let mut out = [0u8; 10];
    reader.read(&mut out);
    assert!(!reader.is_data_available());
}

#[test]
fn test_sequential_reader_close() {
    let buf = make_buf(10, 1, 4);
    let mut reader = SequentialReader::new();
    reader.open(Arc::clone(&buf));
    assert!(reader.is_open());
    reader.close();
    assert!(!reader.is_open());
    assert_eq!(reader.get_pos(), POS_INVALID);
}

#[test]
fn test_get_free_space() {
    let buf = make_buf(10, 1, 4);
    let initial_free = buf.get_free_space();
    // 4 blocks * 10 bytes = 40 bytes free initially
    assert_eq!(initial_free, 40);

    buf.push_back(&[0u8; 10]);
    // 3 blocks * 10 + (10-10)=0 free in back block = 30
    assert_eq!(buf.get_free_space(), 30);
}

#[test]
fn test_set_size_max_block_count() {
    let buf = make_buf(10, 1, 4);
    buf.push_back(&[0u8; 40]); // fill 4 blocks
    assert!(buf.set_size(10, 1, 2, true)); // shrink with discard
    // 2 blocks retained
    assert_eq!(buf.get_max_block_count(), 2);
    assert!(buf.is_full());
}

#[test]
fn test_reader_locks_block_from_reuse() {
    // max=2 blocks, min=1 block
    let buf = make_buf(5, 1, 2);
    buf.push_back(&[1u8; 5]); // block0 at pos 0
    buf.push_back(&[2u8; 5]); // block1 at pos 5 -> full

    let mut reader = SequentialReader::new();
    reader.open(Arc::clone(&buf)); // reader at pos=0 -> locks block0

    // block0 is locked by reader -> new push_back cannot reuse -> returns 0
    let n = buf.push_back(&[3u8; 5]);
    assert_eq!(n, 0);

    // advance reader past block0
    let mut tmp = [0u8; 5];
    reader.read(&mut tmp); // pos -> 5, unlocks block0

    // now block0 can be reused
    let n2 = buf.push_back(&[3u8; 5]);
    assert_eq!(n2, 5);
}

#[test]
fn test_inner_reader_ids_count_up_from_zero() {
    let mut inner = StreamBufferInner::new();
    assert_eq!(inner.new_reader_id(), 0);
    assert_eq!(inner.new_reader_id(), 1);
    assert_eq!(inner.new_reader_id(), 2);
}

#[test]
fn test_inner_first_push_into_new_buffer_is_stored() {
    let mut inner = StreamBufferInner::new();
    assert!(inner.create(4, 1, 2, None));
    assert_eq!(inner.push_back(&[1, 2, 3, 4, 5, 6]), 6);
    assert_eq!(inner.get_end_pos(), 6);
    // the last block takes two bytes, then the unread first block is reused
    assert_eq!(inner.push_back(&[7, 8, 9]), 3);
    assert_eq!(inner.get_end_pos(), 9);
}

#[test]
fn test_shared_push_back_of_nothing_takes_nothing() {
    let buf = StreamBuffer::new();
    assert!(buf.create(16, 1, 2, None));
    assert_eq!(buf.push_back(&[]), 0);
    assert!(buf.is_empty());
}
