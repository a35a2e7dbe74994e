use libisdb::recorder::{RecorderEventListener, RecordingOptions, RecordingStatistics, TaskId, INVALID_SIZE};

struct Counter {
    errors: Vec<TaskId>,
}

impl RecorderEventListener for Counter {
    fn on_write_error(&mut self, task_id: TaskId) {
        self.errors.push(task_id);
    }
}

struct Silent;

impl RecorderEventListener for Silent {}

#[test]
fn test_statistics_default() {
    let s = RecordingStatistics::default();
    assert_eq!(s.input_bytes, 0);
    assert_eq!(s.output_bytes, 0);
    assert_eq!(s.output_count, 0);
    assert_eq!(s.write_bytes, INVALID_SIZE);
    assert_eq!(s.write_bytes, u64::MAX);
    assert_eq!(s.write_error_count, 0);
}

#[test]
fn test_listener_default_and_override() {
    let mut c = Counter { errors: Vec::new() };
    c.on_write_error(3);
    assert_eq!(c.errors, vec![3]);
    let mut s = Silent;
    s.on_write_error(1);
}

#[test]
fn test_options_copy_and_eq() {
    let a = RecordingOptions {
        service_id: 0x0400,
        follow_active_service: true,
        stream_flags: 1,
        write_cache_size: 1024,
        max_pending_size: 0,
        clear_pending_buffer_on_service_changed: true,
    };
    let b = a;
    assert_eq!(a, b);
}
