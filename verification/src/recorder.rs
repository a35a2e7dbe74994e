//! Recording: the options of a recording task, its statistics and the
//! listener of its errors.
use vstd::prelude::*;

verus! {

/// The identifier of a recording task.
pub type TaskId = u64;

/// A size that is not known.
pub const INVALID_SIZE: u64 = 0xFFFF_FFFF_FFFF_FFFF;

/// The options of a recording task.
#[derive(Clone, Copy, Debug, PartialEq, Eq, Structural)]
pub struct RecordingOptions {
    pub service_id: u16,
    pub follow_active_service: bool,
    pub stream_flags: u32,
    pub write_cache_size: usize,
    pub max_pending_size: usize,
    pub clear_pending_buffer_on_service_changed: bool,
}

/// The statistics of a recording task.
#[derive(Clone, Copy, Debug, PartialEq, Eq, Structural)]
pub struct RecordingStatistics {
    pub input_bytes: u64,
    pub output_bytes: u64,
    pub output_count: u64,
    pub write_bytes: u64,
    pub write_error_count: u32,
}

impl Default for RecordingStatistics {
    /// Nothing counted yet; the written size not known.
    fn default() -> (r: RecordingStatistics)
        ensures
            r == (RecordingStatistics {
                input_bytes: 0,
                output_bytes: 0,
                output_count: 0,
                write_bytes: INVALID_SIZE,
                write_error_count: 0,
            }),
    {
        RecordingStatistics {
            input_bytes: 0,
            output_bytes: 0,
            output_count: 0,
            write_bytes: INVALID_SIZE,
            write_error_count: 0,
        }
    }
}

/// Receiver of the events of a recorder; every event is ignored by default.
pub trait RecorderEventListener {
    /// Writing the output of task `task_id` failed.
    fn on_write_error(&mut self, task_id: TaskId) {
    }
}

} // verus!
