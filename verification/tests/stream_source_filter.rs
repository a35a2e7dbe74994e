use libisdb::source_filter::{SourceEventListener, SourceEventListenerHandle, SourceFilter, SourceMode};
use libisdb::stream::MemoryStream;
use libisdb::stream_source_filter::StreamSourceFilter;
use std::cell::RefCell;
use std::rc::Rc;

#[derive(Default)]
struct RecListener {
    opened: usize,
    closed: usize,
    end: usize,
    streaming_start: usize,
    streaming_stop: usize,
    graph_reset: usize,
}

impl SourceEventListener for RecListener {
    fn on_source_opened(&mut self) {
        self.opened += 1;
    }
    fn on_source_closed(&mut self) {
        self.closed += 1;
    }
    fn on_source_end(&mut self) {
        self.end += 1;
    }
    fn on_streaming_start(&mut self) {
        self.streaming_start += 1;
    }
    fn on_streaming_stop(&mut self) {
        self.streaming_stop += 1;
    }
    fn on_graph_reset(&mut self) {
        self.graph_reset += 1;
    }
}

fn concat(chunks: &[Vec<u8>]) -> Vec<u8> {
    let mut v = Vec::new();
    for c in chunks {
        v.extend_from_slice(c);
    }
    v
}

#[test]
fn tests_test_default_state() {
    let filter = StreamSourceFilter::new();
    assert_eq!(filter.get_source_mode(), SourceMode::PUSH);
    assert_eq!(filter.available_source_modes(), SourceMode::PUSH | SourceMode::PULL);
    assert!(!filter.is_source_open());
    assert!(!filter.is_streaming());
    assert_eq!(filter.get_output_buffer_size(), 256 * 188);
    assert_eq!(filter.get_input_bytes(), 0);
}

#[test]
fn test_open_source_stream_twice_fails() {
    let mut filter = StreamSourceFilter::new();
    assert!(filter.open_source_stream(Box::new(MemoryStream::new(vec![1, 2, 3]))));
    assert!(filter.is_source_open());
    // a source is open already
    assert!(!filter.open_source_stream(Box::new(MemoryStream::new(vec![4, 5, 6]))));
}

#[test]
fn test_open_source_by_name_unsupported() {
    let mut filter = StreamSourceFilter::new();
    assert!(!filter.open_source("dummy.ts"));
}

#[test]
fn test_open_source_notifies_listener() {
    let mut filter = StreamSourceFilter::new();
    let l = Rc::new(RefCell::new(RecListener::default()));
    let handle: SourceEventListenerHandle = l.clone();
    filter.add_event_listener(handle);

    filter.open_source_stream(Box::new(MemoryStream::new(vec![1, 2, 3])));
    assert_eq!(l.borrow().opened, 1);
}

#[test]
fn test_set_source_mode_before_open() {
    let mut filter = StreamSourceFilter::new();
    assert!(filter.set_source_mode(SourceMode::PULL));
    assert_eq!(filter.get_source_mode(), SourceMode::PULL);
    assert!(filter.set_source_mode(SourceMode::PUSH));
    assert_eq!(filter.get_source_mode(), SourceMode::PUSH);
}

#[test]
fn test_set_source_mode_blocked_when_open() {
    let mut filter = StreamSourceFilter::new();
    filter.open_source_stream(Box::new(MemoryStream::new(vec![1])));
    // no change while a source is open
    assert!(!filter.set_source_mode(SourceMode::PULL));
    assert_eq!(filter.get_source_mode(), SourceMode::PUSH);
}

#[test]
fn test_set_source_mode_rejects_combined() {
    let mut filter = StreamSourceFilter::new();
    assert!(!filter.set_source_mode(SourceMode::PUSH | SourceMode::PULL));
    assert_eq!(filter.get_source_mode(), SourceMode::PUSH);
}

#[test]
fn test_push_process_stream_outputs_and_counts() {
    let mut filter = StreamSourceFilter::new();

    let data: Vec<u8> = (0u8..100).collect();
    assert!(filter.open_source_stream(Box::new(MemoryStream::new(data.clone()))));
    assert!(filter.start_streaming());

    // one read takes it all (the output buffer is larger than the data)
    assert!(filter.process_stream());
    assert_eq!(concat(&filter.take_output()), data);
    assert_eq!(filter.get_input_bytes(), 100);

    // nothing more to read
    assert!(!filter.process_stream());
}

#[test]
fn test_process_stream_counts_input_even_when_not_streaming() {
    let mut filter = StreamSourceFilter::new();

    let data = vec![0xABu8; 50];
    filter.open_source_stream(Box::new(MemoryStream::new(data)));
    // not streaming

    assert!(filter.process_stream());
    // the bytes count as input but go nowhere
    assert_eq!(filter.get_input_bytes(), 50);
    assert!(filter.take_output().is_empty());
}

#[test]
fn tests_test_process_stream_chunks_by_output_buffer_size() {
    let mut filter = StreamSourceFilter::new();
    assert!(filter.set_output_buffer_size(30));

    let data: Vec<u8> = (0..100u32).map(|i| (i % 256) as u8).collect();
    filter.open_source_stream(Box::new(MemoryStream::new(data.clone())));
    filter.start_streaming();

    let mut iterations = 0;
    while filter.process_stream() {
        iterations += 1;
        assert!(iterations < 100);
    }

    let chunks = filter.take_output();
    for c in &chunks {
        assert!(c.len() <= 30);
    }
    assert_eq!(concat(&chunks), data);
    assert_eq!(filter.get_input_bytes(), 100);
}

#[test]
fn test_process_stream_no_stream_is_false() {
    let mut filter = StreamSourceFilter::new();
    assert!(!filter.process_stream());
}

#[test]
fn test_fetch_source_pull_mode() {
    let mut filter = StreamSourceFilter::new();
    assert!(filter.set_source_mode(SourceMode::PULL));

    let data: Vec<u8> = (0u8..60).collect();
    filter.open_source_stream(Box::new(MemoryStream::new(data.clone())));
    filter.start_streaming();

    assert!(filter.fetch_source(60));
    assert_eq!(concat(&filter.take_output()), data);
}

#[test]
fn test_fetch_source_clamps_to_output_buffer_size() {
    let mut filter = StreamSourceFilter::new();
    assert!(filter.set_source_mode(SourceMode::PULL));
    assert!(filter.set_output_buffer_size(10));

    filter.open_source_stream(Box::new(MemoryStream::new(vec![0xCDu8; 100])));
    filter.start_streaming();

    // a request of 1000 is cut to the output buffer size (10)
    assert!(filter.fetch_source(1000));
    let chunks = filter.take_output();
    assert_eq!(chunks.len(), 1);
    assert_eq!(chunks[0].len(), 10);
}

#[test]
fn test_fetch_source_requires_streaming() {
    let mut filter = StreamSourceFilter::new();
    filter.set_source_mode(SourceMode::PULL);
    filter.open_source_stream(Box::new(MemoryStream::new(vec![1, 2, 3])));
    // not streaming
    assert!(!filter.fetch_source(3));
}

#[test]
fn test_fetch_source_requires_pull_mode() {
    let mut filter = StreamSourceFilter::new();
    // push mode by default
    filter.open_source_stream(Box::new(MemoryStream::new(vec![1, 2, 3])));
    filter.start_streaming();
    assert!(!filter.fetch_source(3));
}

#[test]
fn test_source_end_notification() {
    let mut filter = StreamSourceFilter::new();
    let l = Rc::new(RefCell::new(RecListener::default()));
    let handle: SourceEventListenerHandle = l.clone();
    filter.add_event_listener(handle);

    filter.open_source_stream(Box::new(MemoryStream::new(vec![1, 2, 3, 4])));
    filter.start_streaming();

    // reading it all (fewer bytes than asked, at the end) tells of the end
    filter.process_stream();
    assert_eq!(l.borrow().end, 1);
    assert_eq!(l.borrow().streaming_start, 1);
}

#[test]
fn test_close_source_notifies_and_clears() {
    let mut filter = StreamSourceFilter::new();
    let l = Rc::new(RefCell::new(RecListener::default()));
    let handle: SourceEventListenerHandle = l.clone();
    filter.add_event_listener(handle);

    filter.open_source_stream(Box::new(MemoryStream::new(vec![1, 2, 3])));
    assert!(filter.is_source_open());

    assert!(filter.close_source());
    assert!(!filter.is_source_open());
    assert_eq!(l.borrow().closed, 1);
    // the mode can change once the source is closed
    assert!(filter.set_source_mode(SourceMode::PULL));
}

#[test]
fn test_stop_streaming_notifies() {
    let mut filter = StreamSourceFilter::new();
    let l = Rc::new(RefCell::new(RecListener::default()));
    let handle: SourceEventListenerHandle = l.clone();
    filter.add_event_listener(handle);

    filter.open_source_stream(Box::new(MemoryStream::new(vec![1, 2, 3])));
    filter.start_streaming();
    assert!(filter.is_streaming());

    assert!(filter.stop_streaming());
    assert!(!filter.is_streaming());
    assert_eq!(l.borrow().streaming_stop, 1);
}

#[test]
fn test_reset_graph_notifies() {
    let mut filter = StreamSourceFilter::new();
    let l = Rc::new(RefCell::new(RecListener::default()));
    let handle: SourceEventListenerHandle = l.clone();
    filter.add_event_listener(handle);

    filter.reset_graph();
    assert_eq!(l.borrow().graph_reset, 1);
}

#[test]
fn test_start_streaming_requires_stream() {
    let mut filter = StreamSourceFilter::new();
    // no source open
    assert!(!filter.start_streaming());
}

#[test]
fn tests_test_set_output_buffer_size_validation() {
    let mut filter = StreamSourceFilter::new();
    assert!(!filter.set_output_buffer_size(0));
    assert!(filter.set_output_buffer_size(1));
    assert_eq!(filter.get_output_buffer_size(), 1);
}

#[test]
fn test_start_streaming_twice_notifies_once() {
    let mut filter = StreamSourceFilter::new();
    let l = Rc::new(RefCell::new(RecListener::default()));
    let handle: SourceEventListenerHandle = l.clone();
    filter.add_event_listener(handle);
    filter.open_source_stream(Box::new(MemoryStream::new(vec![1, 2, 3])));
    assert!(filter.start_streaming());
    assert!(filter.start_streaming());
    assert_eq!(l.borrow().streaming_start, 1);
    // the chunk read while streaming is taken once
    assert!(filter.process_stream());
    assert_eq!(filter.take_output(), vec![vec![1, 2, 3]]);
    assert!(filter.take_output().is_empty());
}

#[test]
fn test_accept_push_read_counts_sends_and_ends() {
    let mut filter = StreamSourceFilter::new();
    let l = Rc::new(RefCell::new(RecListener::default()));
    let handle: SourceEventListenerHandle = l.clone();
    filter.add_event_listener(handle);
    assert!(filter.set_output_buffer_size(4));
    filter.open_source_stream(Box::new(MemoryStream::new(vec![])));

    // not streaming: counted, not sent
    assert!(filter.accept_push_read(vec![1, 2, 3, 4], false));
    assert_eq!(filter.get_input_bytes(), 4);
    assert!(filter.take_output().is_empty());

    filter.start_streaming();
    // a full read: sent, no end
    assert!(filter.accept_push_read(vec![5, 6, 7, 8], true));
    assert_eq!(l.borrow().end, 0);
    // a short read at the end: sent, and the end is told
    assert!(filter.accept_push_read(vec![9], true));
    assert_eq!(l.borrow().end, 1);
    // nothing read
    assert!(!filter.accept_push_read(vec![], false));
    assert_eq!(filter.get_input_bytes(), 9);
    assert_eq!(filter.take_output(), vec![vec![5, 6, 7, 8], vec![9]]);
}

#[test]
fn test_accept_pull_read_sends_and_ends() {
    let mut filter = StreamSourceFilter::new();
    let l = Rc::new(RefCell::new(RecListener::default()));
    let handle: SourceEventListenerHandle = l.clone();
    filter.add_event_listener(handle);
    assert!(filter.accept_pull_read(vec![1, 2], true, 2));
    assert_eq!(l.borrow().end, 0);
    assert!(filter.accept_pull_read(vec![3], true, 2));
    assert_eq!(l.borrow().end, 1);
    assert!(!filter.accept_pull_read(vec![], false, 5));
    assert_eq!(filter.take_output(), vec![vec![1, 2], vec![3]]);
    // pulled bytes do not count as push-mode input
    assert_eq!(filter.get_input_bytes(), 0);
}
