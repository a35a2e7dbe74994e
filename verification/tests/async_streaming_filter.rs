use libisdb::async_streaming_filter::{AsyncStreamingFilter, SourceFilterHandle};
use libisdb::source_filter::{SourceFilter, SourceFilterState, SourceMode};
use libisdb::stream_buffer::StreamBuffer;
use std::cell::RefCell;
use std::rc::Rc;
use std::sync::Arc;

struct MockSource {
    state: SourceFilterState,
    available: SourceMode,
    fetched: Vec<usize>,
    open: bool,
}

impl MockSource {
    fn new(mode: SourceMode, available: SourceMode) -> Self {
        Self { state: SourceFilterState::new(mode), available, fetched: Vec::new(), open: false }
    }
}

impl SourceFilter for MockSource {
    fn open_source(&mut self, _name: &str) -> bool {
        self.open = true;
        true
    }
    fn close_source(&mut self) -> bool {
        self.open = false;
        true
    }
    fn is_source_open(&self) -> bool {
        self.open
    }
    fn fetch_source(&mut self, request_size: usize) -> bool {
        self.fetched.push(request_size);
        true
    }
    fn available_source_modes(&self) -> SourceMode {
        self.available
    }
    fn source_state(&self) -> &SourceFilterState {
        &self.state
    }
    fn source_state_mut(&mut self) -> &mut SourceFilterState {
        &mut self.state
    }
}

fn concat(chunks: &[Vec<u8>]) -> Vec<u8> {
    let mut v = Vec::new();
    for c in chunks {
        v.extend_from_slice(c);
    }
    v
}

#[test]
fn test_async_streaming_default_state() {
    let filter = AsyncStreamingFilter::new();
    assert!(filter.get_buffering_enabled());
    assert!(filter.get_clear_on_reset());
    assert_eq!(filter.get_output_buffer_size(), 256 * 188);
    assert!(!filter.is_started());
    assert!(!filter.is_buffer_created());
}

#[test]
fn test_create_buffer_invalid_params() {
    let mut filter = AsyncStreamingFilter::new();
    assert!(!filter.create_buffer(0, 2, 8));
    assert!(!filter.create_buffer(512, 2, 0));
    assert!(!filter.create_buffer(512, 8, 2));
    assert!(!filter.is_buffer_created());
}

#[test]
fn tests_test_buffer_set_get_detach_delete() {
    let mut filter = AsyncStreamingFilter::new();
    assert!(filter.create_buffer(512, 2, 8));
    assert!(filter.is_buffer_created());

    let buf = filter.get_buffer().unwrap();

    let other = Arc::new(StreamBuffer::new());
    assert!(other.create(512, 2, 8, None));
    assert!(filter.set_buffer(Arc::clone(&other)));
    assert!(Arc::ptr_eq(&filter.get_buffer().unwrap(), &other));
    assert!(!Arc::ptr_eq(&filter.get_buffer().unwrap(), &buf));

    let detached = filter.detach_buffer().unwrap();
    assert!(Arc::ptr_eq(&detached, &other));
    assert!(!filter.is_buffer_created());

    assert!(filter.set_buffer(other));
    filter.delete_buffer();
    assert!(!filter.is_buffer_created());
}

#[test]
fn test_receive_buffers_then_process_outputs() {
    let mut filter = AsyncStreamingFilter::new();
    assert!(filter.create_buffer(1024, 2, 8));

    assert!(filter.start_streaming());

    let data: Vec<u8> = (0u8..188).collect();
    assert!(filter.receive_data(&[&data]));

    // nothing is sent until the stream is processed
    assert!(filter.take_output().is_empty());

    assert!(filter.process_stream());
    assert_eq!(concat(&filter.take_output()), data);

    assert!(!filter.process_stream());
}

#[test]
fn test_buffering_disabled_does_not_buffer() {
    let mut filter = AsyncStreamingFilter::new();
    assert!(filter.create_buffer(1024, 2, 8));
    assert!(filter.set_buffering_enabled(false));
    assert!(filter.start_streaming());

    let data = [0xAAu8; 188];
    filter.receive_data(&[&data]);

    assert!(!filter.process_stream());
    assert!(filter.get_buffer().unwrap().is_empty());
}

#[test]
fn test_no_buffer_no_panic() {
    let mut filter = AsyncStreamingFilter::new();
    assert!(filter.start_streaming());
    let data = [1u8; 10];
    assert!(filter.receive_data(&[&data]));
    assert!(!filter.process_stream());
}

#[test]
fn test_async_process_stream_chunks_by_output_buffer_size() {
    let mut filter = AsyncStreamingFilter::new();
    assert!(filter.create_buffer(4096, 2, 8));
    assert!(filter.set_output_buffer_size(188));
    assert!(filter.start_streaming());

    let data: Vec<u8> = (0..500u32).map(|i| (i % 256) as u8).collect();
    filter.receive_data(&[&data]);

    let mut iterations = 0;
    while filter.process_stream() {
        iterations += 1;
        assert!(iterations < 100);
    }

    let chunks = filter.take_output();
    for c in &chunks {
        assert!(c.len() <= 188);
    }
    assert_eq!(concat(&chunks), data);
}

#[test]
fn test_multi_item_stream_all_buffered() {
    let mut filter = AsyncStreamingFilter::new();
    assert!(filter.create_buffer(2048, 2, 8));
    assert!(filter.start_streaming());

    let a = [1u8; 100];
    let b = [2u8; 100];
    let items: &[&[u8]] = &[&a, &b];
    filter.receive_data(items);

    assert!(filter.wait_for_end_of_stream());

    let mut expected = Vec::new();
    expected.extend_from_slice(&a);
    expected.extend_from_slice(&b);
    assert_eq!(concat(&filter.take_output()), expected);
}

#[test]
fn test_wait_for_end_of_stream_drains() {
    let mut filter = AsyncStreamingFilter::new();
    assert!(filter.create_buffer(4096, 2, 8));
    assert!(filter.set_output_buffer_size(188));
    assert!(filter.start_streaming());

    let data: Vec<u8> = (0..1000u32).map(|i| (i % 256) as u8).collect();
    filter.receive_data(&[&data]);

    assert!(filter.wait_for_end_of_stream());
    assert_eq!(concat(&filter.take_output()), data);
    // drained
    assert!(!filter.process_stream());
}

#[test]
fn test_wait_for_end_of_stream_not_started() {
    let mut filter = AsyncStreamingFilter::new();
    assert!(filter.wait_for_end_of_stream());
}

#[test]
fn test_async_set_output_buffer_size_validation() {
    let mut filter = AsyncStreamingFilter::new();
    assert!(!filter.set_output_buffer_size(187));
    assert_eq!(filter.get_output_buffer_size(), 256 * 188);
    assert!(filter.set_output_buffer_size(188));
    assert_eq!(filter.get_output_buffer_size(), 188);
    assert!(filter.set_output_buffer_size(1024));
    assert_eq!(filter.get_output_buffer_size(), 1024);
}

#[test]
fn test_set_source_filter_rejected_when_started() {
    let mut filter = AsyncStreamingFilter::new();
    assert!(filter.start_streaming());

    let src: SourceFilterHandle = Rc::new(RefCell::new(MockSource::new(SourceMode::PULL, SourceMode::PULL)));
    assert!(!filter.set_source_filter(Some(src)));
}

#[test]
fn test_reset_clears_buffer_only_when_enabled() {
    let mut filter = AsyncStreamingFilter::new();
    assert!(filter.create_buffer(1024, 2, 8));
    assert!(filter.start_streaming());

    let data = [0x33u8; 100];
    filter.receive_data(&[&data]);
    assert!(!filter.get_buffer().unwrap().is_empty());

    filter.reset();
    assert!(filter.get_buffer().unwrap().is_empty());

    filter.set_clear_on_reset(false);
    filter.receive_data(&[&data]);
    filter.reset();
    assert!(!filter.get_buffer().unwrap().is_empty());
}

#[test]
fn test_source_uses_pull() {
    let mut filter = AsyncStreamingFilter::new();

    let pull: SourceFilterHandle = Rc::new(RefCell::new(MockSource::new(SourceMode::PULL, SourceMode::PULL)));
    assert!(filter.set_source_filter(Some(pull)));
    assert!(filter.source_uses_pull());

    let push: SourceFilterHandle = Rc::new(RefCell::new(MockSource::new(SourceMode::PUSH, SourceMode::PUSH)));
    assert!(filter.set_source_filter(Some(push)));
    assert!(!filter.source_uses_pull());

    assert!(filter.set_source_filter(None));
    assert!(!filter.source_uses_pull());
}

#[test]
fn test_pull_source_fetches_free_space() {
    let mut filter = AsyncStreamingFilter::new();
    assert!(filter.create_buffer(512, 2, 4));

    let src = Rc::new(RefCell::new(MockSource::new(SourceMode::PULL, SourceMode::PULL)));
    let handle: SourceFilterHandle = src.clone();
    assert!(filter.set_source_filter(Some(handle)));

    let free = filter.get_buffer().unwrap().get_free_space();
    assert!(free > 0);

    assert!(filter.pull_source());
    assert_eq!(src.borrow().fetched, vec![free]);
}

#[test]
fn test_pull_source_without_buffer_is_false() {
    let mut filter = AsyncStreamingFilter::new();
    let src: SourceFilterHandle = Rc::new(RefCell::new(MockSource::new(SourceMode::PULL, SourceMode::PULL)));
    assert!(filter.set_source_filter(Some(src)));
    assert!(!filter.pull_source());
}

#[test]
fn test_stop_streaming_closes_reader() {
    let mut filter = AsyncStreamingFilter::new();
    assert!(filter.create_buffer(1024, 2, 8));
    assert!(filter.start_streaming());
    filter.receive_data(&[&[5u8; 20]]);
    assert!(filter.stop_streaming());
    assert!(!filter.is_started());
    // the reader is closed: nothing is read
    assert!(!filter.process_stream());
    // a source may be set again once stopped
    let src: SourceFilterHandle = Rc::new(RefCell::new(MockSource::new(SourceMode::PUSH, SourceMode::PUSH)));
    assert!(filter.set_source_filter(Some(src)));
}

#[test]
fn test_source_uses_pull_while_source_is_borrowed() {
    let mut filter = AsyncStreamingFilter::new();
    let pull: SourceFilterHandle = Rc::new(RefCell::new(MockSource::new(SourceMode::PULL, SourceMode::PULL)));
    assert!(filter.set_source_filter(Some(pull.clone())));
    {
        let _held = pull.borrow_mut();
        assert!(!filter.source_uses_pull());
    }
    assert!(filter.source_uses_pull());
}
