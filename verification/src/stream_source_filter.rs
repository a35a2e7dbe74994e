//! A source filter that reads a stream: in push mode each call of
//! `process_stream` reads one output buffer's worth, in pull mode
//! `fetch_source` reads what is asked for. The chunks read while streaming
//! are queued for the downstream filter, which takes them with
//! `take_output`.
use vstd::prelude::*;
use crate::source_filter::{SourceFilter, SourceFilterState, SourceMode, SourceEventListenerHandle};
use crate::stream::Stream;
use crate::ts_packet::TS_PACKET_SIZE;

verus! {

/// The output buffer size a filter starts with: 256 transport packets.
pub const DEFAULT_OUTPUT_BUFFER_SIZE: usize = 48128;

/// A source filter that reads a stream.
pub struct StreamSourceFilter {
    state: SourceFilterState,
    stream: Option<Box<dyn Stream>>,
    output_buffer_size: usize,
    input_bytes: u64,
    is_streaming: bool,
    output: Vec<Vec<u8>>,
}

/// Where a read of `n` bytes (at most `size`) leaves the chunks sent
/// downstream: the chunk joins them when some bytes were read while
/// streaming.
pub open spec fn sent_after(output: Seq<Seq<u8>>, chunk: Seq<u8>, streaming: bool) -> Seq<Seq<u8>> {
    if streaming && chunk.len() > 0 {
        output.push(chunk)
    } else {
        output
    }
}

impl StreamSourceFilter {
    /// Whether a stream is open.
    pub closed spec fn source_open(&self) -> bool {
        self.stream is Some
    }

    /// Whether the filter is streaming.
    pub closed spec fn streaming(&self) -> bool {
        self.is_streaming
    }

    /// How many bytes one read asks for at most.
    pub closed spec fn buffer_size(&self) -> usize {
        self.output_buffer_size
    }

    /// How many bytes have been read in push mode, saturating.
    pub closed spec fn input_count(&self) -> u64 {
        self.input_bytes
    }

    /// The chunks read for the downstream filter and not taken yet, in order.
    pub closed spec fn pending_output(&self) -> Seq<Seq<u8>> {
        self.output@.map_values(|c: Vec<u8>| c@)
    }

    /// The source mode.
    pub closed spec fn mode(&self) -> SourceMode {
        self.state.mode()
    }

    /// The registered listeners, in order.
    pub closed spec fn listener_seq(&self) -> Seq<SourceEventListenerHandle> {
        self.state.listener_seq()
    }

    pub closed spec fn wf(&self) -> bool {
        self.output_buffer_size >= 1
    }

    /// A filter in push mode with no stream, no listener and nothing read.
    pub fn new() -> (r: Self)
        ensures
            r.wf(),
            !r.source_open(),
            !r.streaming(),
            r.buffer_size() == 256 * TS_PACKET_SIZE,
            r.input_count() == 0,
            r.pending_output() == Seq::<Seq<u8>>::empty(),
            r.mode() == SourceMode::PUSH,
            r.listener_seq() == Seq::<SourceEventListenerHandle>::empty(),
    {
        let r = StreamSourceFilter {
            state: SourceFilterState::new(SourceMode::PUSH),
            stream: None,
            output_buffer_size: DEFAULT_OUTPUT_BUFFER_SIZE,
            input_bytes: 0,
            is_streaming: false,
            output: Vec::new(),
        };
        assert(r.pending_output() =~= Seq::<Seq<u8>>::empty());
        r
    }

    /// Whether the filter is streaming.
    pub fn is_streaming(&self) -> (r: bool)
        ensures
            r == self.streaming(),
    {
        self.is_streaming
    }

    /// Opens `stream` as the source, unless a source is open already; a
    /// newly opened source is not streaming yet. The listeners hear of it.
    pub fn open_source_stream(&mut self, stream: Box<dyn Stream>) -> (r: bool)
        requires
            old(self).wf(),
        ensures
            final(self).wf(),
            r == !old(self).source_open(),
            final(self).source_open(),
            final(self).streaming() == (if r { false } else { old(self).streaming() }),
            final(self).buffer_size() == old(self).buffer_size(),
            final(self).input_count() == old(self).input_count(),
            final(self).pending_output() == old(self).pending_output(),
            final(self).mode() == old(self).mode(),
            final(self).listener_seq() == old(self).listener_seq(),
    {
        if self.stream.is_some() {
            return false;
        }
        self.stream = Some(stream);
        self.is_streaming = false;
        self.state.notify_source_opened();
        true
    }

    /// Sets how many bytes one read asks for at most; `false`, with nothing
    /// changed, for 0.
    pub fn set_output_buffer_size(&mut self, size: usize) -> (r: bool)
        requires
            old(self).wf(),
        ensures
            final(self).wf(),
            r == (size >= 1),
            final(self).buffer_size() == (if r { size } else { old(self).buffer_size() }),
            final(self).source_open() == old(self).source_open(),
            final(self).streaming() == old(self).streaming(),
            final(self).input_count() == old(self).input_count(),
            final(self).pending_output() == old(self).pending_output(),
            final(self).mode() == old(self).mode(),
            final(self).listener_seq() == old(self).listener_seq(),
    {
        if size < 1 {
            return false;
        }
        self.output_buffer_size = size;
        true
    }

    /// How many bytes one read asks for at most.
    pub fn get_output_buffer_size(&self) -> (r: usize)
        ensures
            r == self.buffer_size(),
    {
        self.output_buffer_size
    }

    /// How many bytes have been read in push mode.
    pub fn get_input_bytes(&self) -> (r: u64)
        ensures
            r == self.input_count(),
    {
        self.input_bytes
    }

    /// Starts streaming: `false` without a source; when it was not
    /// streaming, the listeners hear that streaming starts.
    pub fn start_streaming(&mut self) -> (r: bool)
        requires
            old(self).wf(),
        ensures
            final(self).wf(),
            r == old(self).source_open(),
            final(self).streaming() == (old(self).streaming() || r),
            final(self).source_open() == old(self).source_open(),
            final(self).buffer_size() == old(self).buffer_size(),
            final(self).input_count() == old(self).input_count(),
            final(self).pending_output() == old(self).pending_output(),
            final(self).mode() == old(self).mode(),
            final(self).listener_seq() == old(self).listener_seq(),
    {
        if self.stream.is_none() {
            return false;
        }
        if self.is_streaming {
            return true;
        }
        self.is_streaming = true;
        self.state.notify_streaming_start();
        true
    }

    /// Stops streaming; the listeners hear of it.
    pub fn stop_streaming(&mut self) -> (r: bool)
        requires
            old(self).wf(),
        ensures
            final(self).wf(),
            r,
            !final(self).streaming(),
            final(self).source_open() == old(self).source_open(),
            final(self).buffer_size() == old(self).buffer_size(),
            final(self).input_count() == old(self).input_count(),
            final(self).pending_output() == old(self).pending_output(),
            final(self).mode() == old(self).mode(),
            final(self).listener_seq() == old(self).listener_seq(),
    {
        self.is_streaming = false;
        self.state.notify_streaming_stop();
        true
    }

    /// Resets the graph: the listeners hear of it; nothing else changes.
    pub fn reset_graph(&self) {
        self.state.notify_graph_reset();
    }

    /// The chunks read for the downstream filter since the last call, in
    /// order; none are left.
    pub fn take_output(&mut self) -> (r: Vec<Vec<u8>>)
        requires
            old(self).wf(),
        ensures
            final(self).wf(),
            r@.map_values(|c: Vec<u8>| c@) == old(self).pending_output(),
            final(self).pending_output() == Seq::<Seq<u8>>::empty(),
            final(self).source_open() == old(self).source_open(),
            final(self).streaming() == old(self).streaming(),
            final(self).buffer_size() == old(self).buffer_size(),
            final(self).input_count() == old(self).input_count(),
            final(self).mode() == old(self).mode(),
            final(self).listener_seq() == old(self).listener_seq(),
    {
        let mut taken: Vec<Vec<u8>> = Vec::new();
        core::mem::swap(&mut self.output, &mut taken);
        assert(self.pending_output() =~= Seq::<Seq<u8>>::empty());
        taken
    }

    /// Reads up to `size` bytes from the stream into a chunk; the stream's
    /// own count is trusted no further than `size`. Whether the stream is
    /// at its end after the read.
    fn read_chunk(&mut self, size: usize) -> (r: (Vec<u8>, bool))
        requires
            old(self).source_open(),
        ensures
            r.0@.len() <= size,
            final(self).source_open(),
            final(self).streaming() == old(self).streaming(),
            final(self).buffer_size() == old(self).buffer_size(),
            final(self).input_count() == old(self).input_count(),
            final(self).pending_output() == old(self).pending_output(),
            final(self).mode() == old(self).mode(),
            final(self).listener_seq() == old(self).listener_seq(),
            final(self).wf() == old(self).wf(),
    {
        let mut buf: Vec<u8> = vec![0u8; size];
        let (n, at_end) = match &mut self.stream {
            Some(s) => {
                let n = s.read(buf.as_mut_slice());
                (n, s.is_end())
            },
            None => (0, false),
        };
        let n = if n < size { n } else { size };
        buf.truncate(n);
        (buf, at_end)
    }

    /// What follows a push-mode read that gave `chunk` (at most the output
    /// buffer size), with the stream at its end or not: the bytes count as
    /// input (saturating), and are sent downstream when streaming; when
    /// fewer bytes than the buffer size came and the stream is at its end,
    /// the listeners hear that the source ended. Whether any byte came.
    pub fn accept_push_read(&mut self, chunk: Vec<u8>, at_end: bool) -> (r: bool)
        requires
            old(self).wf(),
            chunk@.len() <= old(self).buffer_size(),
        ensures
            final(self).wf(),
            r == (chunk@.len() > 0),
            final(self).input_count() == (if old(self).input_count() + chunk@.len() <= u64::MAX {
                old(self).input_count() + chunk@.len()
            } else {
                u64::MAX as int
            }),
            final(self).pending_output() == sent_after(old(self).pending_output(), chunk@, old(self).streaming()),
            final(self).source_open() == old(self).source_open(),
            final(self).streaming() == old(self).streaming(),
            final(self).buffer_size() == old(self).buffer_size(),
            final(self).mode() == old(self).mode(),
            final(self).listener_seq() == old(self).listener_seq(),
    {
        let n = chunk.len();
        let ghost before = self.pending_output();
        let ghost data = chunk@;
        if n > 0 {
            self.input_bytes = self.input_bytes.saturating_add(n as u64);
            if self.is_streaming {
                self.output.push(chunk);
                assert(self.pending_output() =~= before.push(data));
            }
        }
        if n < self.output_buffer_size && at_end {
            self.state.notify_source_end();
        }
        n > 0
    }

    /// What follows a pull-mode read of `requested` bytes that gave `chunk`
    /// (at most that many), with the stream at its end or not: the bytes
    /// are sent downstream; when fewer bytes than requested came and the
    /// stream is at its end, the listeners hear that the source ended.
    /// Whether any byte came.
    pub fn accept_pull_read(&mut self, chunk: Vec<u8>, at_end: bool, requested: usize) -> (r: bool)
        requires
            chunk@.len() <= requested,
        ensures
            r == (chunk@.len() > 0),
            final(self).pending_output() == sent_after(old(self).pending_output(), chunk@, true),
            final(self).source_open() == old(self).source_open(),
            final(self).streaming() == old(self).streaming(),
            final(self).buffer_size() == old(self).buffer_size(),
            final(self).input_count() == old(self).input_count(),
            final(self).mode() == old(self).mode(),
            final(self).listener_seq() == old(self).listener_seq(),
            final(self).wf() == old(self).wf(),
    {
        let n = chunk.len();
        let ghost before = self.pending_output();
        let ghost data = chunk@;
        if n > 0 {
            self.output.push(chunk);
            assert(self.pending_output() =~= before.push(data));
        }
        if n < requested && at_end {
            self.state.notify_source_end();
        }
        n > 0
    }

    /// One read in push mode: reads up to the output buffer size from the
    /// stream and goes on as `accept_push_read` says; `false`, with nothing
    /// changed, without a source.
    pub fn process_stream(&mut self) -> (r: bool)
        requires
            old(self).wf(),
        ensures
            final(self).wf(),
            !old(self).source_open() ==> !r && *final(self) == *old(self),
            old(self).source_open() ==> exists|chunk: Seq<u8>| {
                &&& chunk.len() <= old(self).buffer_size()
                &&& r == (chunk.len() > 0)
                &&& final(self).input_count() == (if old(self).input_count() + chunk.len() <= u64::MAX {
                    old(self).input_count() + chunk.len()
                } else {
                    u64::MAX as int
                })
                &&& final(self).pending_output() == #[trigger] sent_after(old(self).pending_output(), chunk, old(self).streaming())
            },
            final(self).source_open() == old(self).source_open(),
            final(self).streaming() == old(self).streaming(),
            final(self).buffer_size() == old(self).buffer_size(),
            final(self).mode() == old(self).mode(),
            final(self).listener_seq() == old(self).listener_seq(),
    {
        if self.stream.is_none() {
            return false;
        }
        let size = self.output_buffer_size;
        let (chunk, at_end) = self.read_chunk(size);
        let ghost data = chunk@;
        let r = self.accept_push_read(chunk, at_end);
        assert(self.pending_output() == sent_after(old(self).pending_output(), data, old(self).streaming()));
        r
    }
}

impl SourceFilter for StreamSourceFilter {
    /// Opening a source by name is not supported: use `open_source_stream`.
    fn open_source(&mut self, _name: &str) -> (r: bool)
        ensures
            !r,
    {
        false
    }

    /// Closes the source and stops streaming; the listeners hear of it.
    fn close_source(&mut self) -> (r: bool)
        ensures
            r,
            !final(self).source_open(),
            !final(self).streaming(),
            final(self).buffer_size() == old(self).buffer_size(),
            final(self).input_count() == old(self).input_count(),
            final(self).pending_output() == old(self).pending_output(),
            final(self).mode() == old(self).mode(),
            final(self).listener_seq() == old(self).listener_seq(),
            final(self).wf() == old(self).wf(),
    {
        self.is_streaming = false;
        self.stream = None;
        self.state.notify_source_closed();
        true
    }

    /// Whether a source is open.
    fn is_source_open(&self) -> (r: bool)
        ensures
            r == self.source_open(),
    {
        self.stream.is_some()
    }

    /// One read in pull mode while streaming: reads up to `request_size`
    /// bytes (at most the output buffer size) and sends them downstream;
    /// when fewer bytes than asked came and the stream is at its end, the
    /// listeners hear that the source ended. Whether any byte was read;
    /// `false`, with nothing changed, unless streaming an open source in
    /// pull mode.
    fn fetch_source(&mut self, request_size: usize) -> (r: bool)
        ensures
            !(old(self).streaming() && old(self).source_open() && old(self).mode().flag_bits()
                & SourceMode::PULL.flag_bits() != 0) ==> !r && *final(self) == *old(self),
            (old(self).streaming() && old(self).source_open() && old(self).mode().flag_bits()
                & SourceMode::PULL.flag_bits() != 0) ==> exists|chunk: Seq<u8>| {
                &&& chunk.len() <= request_size
                &&& chunk.len() <= old(self).buffer_size()
                &&& r == (chunk.len() > 0)
                &&& final(self).pending_output() == #[trigger] sent_after(old(self).pending_output(), chunk, true)
            },
            final(self).source_open() == old(self).source_open(),
            final(self).streaming() == old(self).streaming(),
            final(self).buffer_size() == old(self).buffer_size(),
            final(self).input_count() == old(self).input_count(),
            final(self).mode() == old(self).mode(),
            final(self).listener_seq() == old(self).listener_seq(),
            final(self).wf() == old(self).wf(),
    {
        if !self.is_streaming || self.stream.is_none() || !self.state.source_mode().intersects(SourceMode::PULL) {
            return false;
        }
        let req = if request_size < self.output_buffer_size {
            request_size
        } else {
            self.output_buffer_size
        };
        let (chunk, at_end) = self.read_chunk(req);
        let ghost data = chunk@;
        let r = self.accept_pull_read(chunk, at_end, req);
        assert(self.pending_output() == sent_after(old(self).pending_output(), data, true));
        r
    }

    /// Push and pull.
    fn available_source_modes(&self) -> (r: SourceMode)
        ensures
            r == SourceMode::PUSH_PULL,
    {
        SourceMode::PUSH_PULL
    }

    fn source_state(&self) -> &SourceFilterState {
        &self.state
    }

    fn source_state_mut(&mut self) -> &mut SourceFilterState {
        &mut self.state
    }

    /// Sets the source mode, unless a source is open (see
    /// `SourceFilterState::set_source_mode`).
    fn set_source_mode(&mut self, mode: SourceMode) -> (r: bool)
        ensures
            r == (!old(self).source_open() && (mode == SourceMode::PUSH || mode == SourceMode::PULL)),
            final(self).mode() == (if r { mode } else { old(self).mode() }),
            final(self).source_open() == old(self).source_open(),
            final(self).streaming() == old(self).streaming(),
            final(self).buffer_size() == old(self).buffer_size(),
            final(self).input_count() == old(self).input_count(),
            final(self).pending_output() == old(self).pending_output(),
            final(self).listener_seq() == old(self).listener_seq(),
            final(self).wf() == old(self).wf(),
    {
        if self.stream.is_some() {
            return false;
        }
        assert(3u32 & 1u32 != 0 && 3u32 & 2u32 != 0) by (bit_vector);
        self.state.set_source_mode(mode, SourceMode::PUSH_PULL)
    }
}

} // verus!
