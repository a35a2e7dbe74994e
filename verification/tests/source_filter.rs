use libisdb::source_filter::{
    EventListenerList, SourceEventListener, SourceEventListenerHandle, SourceFilter, SourceFilterState, SourceMode,
};
use std::cell::RefCell;
use std::rc::Rc;


// A mock source filter

/// A mock source filter that may support push and pull.
struct MockSource {
    state: SourceFilterState,
    available: SourceMode,
    open: bool,
    close_called: usize,
}

impl MockSource {
    fn new(initial: SourceMode, available: SourceMode) -> Self {
        Self {
            state: SourceFilterState::new(initial),
            available,
            open: false,
            close_called: 0,
        }
    }
}

impl SourceFilter for MockSource {
    fn open_source(&mut self, _name: &str) -> bool {
        self.open = true;
        true
    }
    fn close_source(&mut self) -> bool {
        self.close_called += 1;
        self.open = false;
        true
    }
    fn is_source_open(&self) -> bool {
        self.open
    }
    fn available_source_modes(&self) -> SourceMode {
        self.available
    }
    fn source_state(&self) -> &SourceFilterState {
        &self.state
    }
    fn source_state_mut(&mut self) -> &mut SourceFilterState {
        &mut self.state
    }
}

/// A listener that counts the calls of each callback.
#[derive(Default)]
struct RecordingListener {
    graph_reset: usize,
    opened: usize,
    closed: usize,
    changed: usize,
    change_failed: usize,
    end: usize,
    streaming_start: usize,
    streaming_stop: usize,
}

impl SourceEventListener for RecordingListener {
    fn on_graph_reset(&mut self) {
        self.graph_reset += 1;
    }
    fn on_source_opened(&mut self) {
        self.opened += 1;
    }
    fn on_source_closed(&mut self) {
        self.closed += 1;
    }
    fn on_source_changed(&mut self) {
        self.changed += 1;
    }
    fn on_source_change_failed(&mut self) {
        self.change_failed += 1;
    }
    fn on_source_end(&mut self) {
        self.end += 1;
    }
    fn on_streaming_start(&mut self) {
        self.streaming_start += 1;
    }
    fn on_streaming_stop(&mut self) {
        self.streaming_stop += 1;
    }
}

// SourceMode

#[test]
fn test_source_mode_bits() {
    assert_eq!(SourceMode::PUSH.bits(), 0x0001);
    assert_eq!(SourceMode::PULL.bits(), 0x0002);

    let both = SourceMode::PUSH | SourceMode::PULL;
    assert!(both.contains(SourceMode::PUSH));
    assert!(both.contains(SourceMode::PULL));
    assert!(both.intersects(SourceMode::PUSH));
    assert_ne!(both, SourceMode::PUSH);
    assert_ne!(both, SourceMode::PULL);
}

// set_source_mode

#[test]
fn test_set_source_mode_accepts_available_single_mode() {
    let mut src = MockSource::new(SourceMode::PUSH, SourceMode::PUSH | SourceMode::PULL);

    assert!(src.set_source_mode(SourceMode::PULL));
    assert_eq!(src.get_source_mode(), SourceMode::PULL);

    assert!(src.set_source_mode(SourceMode::PUSH));
    assert_eq!(src.get_source_mode(), SourceMode::PUSH);
}

#[test]
fn test_set_source_mode_rejects_unavailable_mode() {
    // pull asked of a push-only source: refused, nothing changes
    let mut src = MockSource::new(SourceMode::PUSH, SourceMode::PUSH);

    assert!(!src.set_source_mode(SourceMode::PULL));
    assert_eq!(src.get_source_mode(), SourceMode::PUSH);
}

#[test]
fn test_set_source_mode_rejects_combined_flags() {
    // refused unless exactly one of push and pull
    let mut src = MockSource::new(SourceMode::PUSH, SourceMode::PUSH | SourceMode::PULL);

    assert!(!src.set_source_mode(SourceMode::PUSH | SourceMode::PULL));
    assert_eq!(src.get_source_mode(), SourceMode::PUSH);
}

#[test]
fn test_set_source_mode_rejects_empty() {
    let mut src = MockSource::new(SourceMode::PUSH, SourceMode::PUSH | SourceMode::PULL);

    assert!(!src.set_source_mode(SourceMode::empty()));
    assert_eq!(src.get_source_mode(), SourceMode::PUSH);
}

// finalize closes the source

#[test]
fn test_finalize_calls_close_source() {
    let mut src = MockSource::new(SourceMode::PUSH, SourceMode::PUSH);
    src.open_source("dummy");
    assert!(src.is_source_open());

    src.finalize();
    assert!(!src.is_source_open());
    assert_eq!(src.close_called, 1);
}

#[test]
fn test_fetch_source_default_false() {
    let mut src = MockSource::new(SourceMode::PUSH, SourceMode::PUSH);
    assert!(!src.fetch_source(1024));
}

// EventListenerList: add, remove, no duplicates

#[test]
fn test_event_listener_add_dedup() {
    let mut list: EventListenerList<dyn SourceEventListener> = EventListenerList::new();
    let a: SourceEventListenerHandle = Rc::new(RefCell::new(RecordingListener::default()));
    let b: SourceEventListenerHandle = Rc::new(RefCell::new(RecordingListener::default()));

    assert!(list.add_event_listener(a.clone()));
    assert_eq!(list.event_listener_count(), 1);

    // the same handle again is refused
    assert!(!list.add_event_listener(a.clone()));
    assert_eq!(list.event_listener_count(), 1);

    // another listener is accepted
    assert!(list.add_event_listener(b.clone()));
    assert_eq!(list.event_listener_count(), 2);
}

#[test]
fn test_event_listener_remove() {
    let mut list: EventListenerList<dyn SourceEventListener> = EventListenerList::new();
    let a: SourceEventListenerHandle = Rc::new(RefCell::new(RecordingListener::default()));
    let b: SourceEventListenerHandle = Rc::new(RefCell::new(RecordingListener::default()));

    list.add_event_listener(a.clone());

    // removing an unregistered listener gives false
    assert!(!list.remove_event_listener(&b));
    // removing a registered listener gives true
    assert!(list.remove_event_listener(&a));
    assert_eq!(list.event_listener_count(), 0);
    // a second time gives false
    assert!(!list.remove_event_listener(&a));
}

#[test]
fn test_event_listener_remove_all() {
    let mut list: EventListenerList<dyn SourceEventListener> = EventListenerList::new();
    for _ in 0..3 {
        let l: SourceEventListenerHandle = Rc::new(RefCell::new(RecordingListener::default()));
        list.add_event_listener(l);
    }
    assert_eq!(list.event_listener_count(), 3);

    list.remove_all_event_listeners();
    assert_eq!(list.event_listener_count(), 0);
}

// dispatch of events

#[test]
fn test_notify_dispatches_to_all_listeners_in_order() {
    let mut src = MockSource::new(SourceMode::PUSH, SourceMode::PUSH | SourceMode::PULL);

    let l1 = Rc::new(RefCell::new(RecordingListener::default()));
    let l2 = Rc::new(RefCell::new(RecordingListener::default()));
    src.add_event_listener(l1.clone());
    src.add_event_listener(l2.clone());

    src.source_state().notify_source_opened();
    src.source_state().notify_source_opened();
    src.source_state().notify_streaming_start();
    src.source_state().notify_source_end();

    for l in [&l1, &l2] {
        let r = l.borrow();
        assert_eq!(r.opened, 2);
        assert_eq!(r.streaming_start, 1);
        assert_eq!(r.end, 1);
        // callbacks not called stay at 0
        assert_eq!(r.closed, 0);
        assert_eq!(r.graph_reset, 0);
    }
}

#[test]
fn test_notify_each_callback_routes_to_correct_method() {
    let mut src = MockSource::new(SourceMode::PUSH, SourceMode::PUSH | SourceMode::PULL);
    let l = Rc::new(RefCell::new(RecordingListener::default()));
    src.add_event_listener(l.clone());

    let s = src.source_state();
    s.notify_graph_reset();
    s.notify_source_opened();
    s.notify_source_closed();
    s.notify_source_changed();
    s.notify_source_change_failed();
    s.notify_source_end();
    s.notify_streaming_start();
    s.notify_streaming_stop();

    let r = l.borrow();
    assert_eq!(r.graph_reset, 1);
    assert_eq!(r.opened, 1);
    assert_eq!(r.closed, 1);
    assert_eq!(r.changed, 1);
    assert_eq!(r.change_failed, 1);
    assert_eq!(r.end, 1);
    assert_eq!(r.streaming_start, 1);
    assert_eq!(r.streaming_stop, 1);
}

#[test]
fn test_remove_listener_stops_notifications() {
    let mut src = MockSource::new(SourceMode::PUSH, SourceMode::PUSH);
    let l = Rc::new(RefCell::new(RecordingListener::default()));
    let handle: SourceEventListenerHandle = l.clone();
    src.add_event_listener(handle.clone());

    src.source_state().notify_source_opened();
    assert_eq!(l.borrow().opened, 1);

    assert!(src.remove_event_listener(&handle));
    src.source_state().notify_source_opened();
    // no more calls after removal
    assert_eq!(l.borrow().opened, 1);
}

#[test]
fn test_default_listener_impl_does_nothing() {
    // a listener with only the default callbacks does not panic
    struct SilentListener;
    impl SourceEventListener for SilentListener {}

    let mut list: EventListenerList<dyn SourceEventListener> = EventListenerList::new();
    let l: SourceEventListenerHandle = Rc::new(RefCell::new(SilentListener));
    list.add_event_listener(l);

    list.call_event_listener(|x| x.on_source_opened());
    list.call_event_listener(|x| x.on_source_end());
}

#[test]
fn test_state_set_source_mode() {
    let mut st = SourceFilterState::new(SourceMode::PUSH);
    assert!(st.set_source_mode(SourceMode::PULL, SourceMode::PUSH | SourceMode::PULL));
    assert_eq!(st.source_mode(), SourceMode::PULL);
    assert!(!st.set_source_mode(SourceMode::PUSH, SourceMode::PULL));
    assert_eq!(st.source_mode(), SourceMode::PULL);
    assert!(!st.set_source_mode(SourceMode::empty(), SourceMode::PUSH | SourceMode::PULL));
    assert_eq!(st.listeners().event_listener_count(), 0);
}

#[test]
fn test_source_mode_from_bits_and_default() {
    assert_eq!(SourceMode::from_bits_truncate(0x0003), SourceMode::PUSH | SourceMode::PULL);
    assert_eq!(SourceMode::from_bits_truncate(0x0105), SourceMode::PUSH);
    assert_eq!(SourceMode::default(), SourceMode::empty());
    assert_eq!(SourceMode::empty().bits(), 0);
    assert!(!SourceMode::PUSH.intersects(SourceMode::PULL));
    assert!(SourceMode::PULL.contains(SourceMode::empty()));
}

#[test]
fn test_event_listener_list_default_is_empty() {
    let list: EventListenerList<dyn SourceEventListener> = EventListenerList::default();
    assert_eq!(list.event_listener_count(), 0);
}

#[test]
fn test_call_event_listener_passes_over_a_borrowed_listener() {
    let mut list: EventListenerList<dyn SourceEventListener> = EventListenerList::new();
    let a = Rc::new(RefCell::new(RecordingListener::default()));
    let b = Rc::new(RefCell::new(RecordingListener::default()));
    let ha: SourceEventListenerHandle = a.clone();
    let hb: SourceEventListenerHandle = b.clone();
    assert!(list.add_event_listener(ha));
    assert!(list.add_event_listener(hb));
    assert_eq!(list.call_event_listener(|x| x.on_source_opened()), 2);
    {
        let _held = a.borrow_mut();
        assert_eq!(list.call_event_listener(|x| x.on_source_opened()), 1);
    }
    assert_eq!(a.borrow().opened, 1);
    assert_eq!(b.borrow().opened, 2);
}

#[test]
fn test_add_event_listener_by_allocation() {
    let mut list: EventListenerList<dyn SourceEventListener> = EventListenerList::new();
    let a = Rc::new(RefCell::new(RecordingListener::default()));
    let b = Rc::new(RefCell::new(RecordingListener::default()));
    let ha: SourceEventListenerHandle = a.clone();
    let ha2: SourceEventListenerHandle = a.clone();
    let hb: SourceEventListenerHandle = b.clone();
    assert!(list.add_event_listener(ha));
    // another handle of the same allocation is refused
    assert!(!list.add_event_listener(ha2.clone()));
    // a listener with equal contents in another allocation is accepted
    assert!(list.add_event_listener(hb.clone()));
    assert_eq!(list.event_listener_count(), 2);
    assert!(list.remove_event_listener(&ha2));
    assert!(!list.remove_event_listener(&ha2));
    assert_eq!(list.event_listener_count(), 1);
    assert!(list.remove_event_listener(&hb));
}
