//! A filter that decouples its input from its output with a stream buffer:
//! received data is pushed into the buffer, and each call of
//! `process_stream` reads one output buffer's worth for the downstream
//! filter, which takes the chunks with `take_output`. A source filter in
//! pull mode is asked for as much as the buffer has room for.
use vstd::prelude::*;
use std::cell::RefCell;
use std::rc::Rc;
use std::sync::Arc;
use crate::source_filter::{apply_to_shared, SourceFilter, SourceMode};
use crate::stream_buffer::{buffer_size_ok, Reader, SequentialReader, StreamBuffer};
use crate::ts_packet::TS_PACKET_SIZE;

verus! {

/// A shared handle of a source filter.
pub type SourceFilterHandle = Rc<RefCell<dyn SourceFilter>>;

/// `Arc::ptr_eq` on two buffer handles: whether they point to the same
/// allocation. Claimed: two handles of one allocation are one value.
/// Left unsaid: that two handles of one allocation give `true`.
#[verifier::external_body]
fn same_buffer<T: ?Sized>(a: &Arc<T>, b: &Arc<T>) -> (r: bool)
    ensures
        r ==> *a == *b,
{
    Arc::ptr_eq(a, b)
}

/// `Arc::clone` on a buffer handle: another handle of the same allocation,
/// which is the same value.
#[verifier::external_body]
fn clone_buffer<T: ?Sized>(h: &Arc<T>) -> (r: Arc<T>)
    ensures
        r == *h,
{
    Arc::clone(h)
}

/// `RefCell::try_borrow` on a shared handle: when the value is not
/// mutably borrowed elsewhere, `f` is applied to it and its result is
/// returned in `Some`; when it is, `f` does not run and the result is
/// `None`. Claimed of a `Some`: it is a result `f` may give for some value.
/// Which case happens rests on borrows held at run time and is left unsaid.
#[verifier::external_body]
fn inspect<T: ?Sized, R, F: FnOnce(&T) -> R>(h: &Rc<RefCell<T>>, f: F) -> (r: Option<R>)
    requires
        forall|t: &T| call_requires(f, (t,)),
    ensures
        r matches Some(v) ==> exists|t: &T| #[trigger] call_ensures(f, (t,), v),
{
    match h.try_borrow() {
        Ok(value) => Some(f(&*value)),
        Err(_) => None,
    }
}

/// A filter that buffers what it receives and sends it on in chunks.
pub struct AsyncStreamingFilter {
    buffering_enabled: bool,
    clear_on_reset: bool,
    stream_buffer: Option<Arc<StreamBuffer>>,
    reader: SequentialReader,
    output_buffer_size: usize,
    source_filter: Option<SourceFilterHandle>,
    started: bool,
    output: Vec<Vec<u8>>,
}

impl AsyncStreamingFilter {
    /// Whether received data goes into the buffer.
    pub closed spec fn buffering(&self) -> bool {
        self.buffering_enabled
    }

    /// Whether a reset empties the buffer.
    pub closed spec fn clears_on_reset(&self) -> bool {
        self.clear_on_reset
    }

    /// The stream buffer, if one is set.
    pub closed spec fn buffer(&self) -> Option<Arc<StreamBuffer>> {
        self.stream_buffer
    }

    /// Whether the reader of the buffer is open.
    pub closed spec fn reader_open(&self) -> bool {
        self.reader.attached()
    }

    /// Where the reader stands in the buffer's stream.
    pub closed spec fn reader_pos(&self) -> i64 {
        self.reader.position()
    }

    /// How many bytes one chunk holds at most.
    pub closed spec fn chunk_size(&self) -> usize {
        self.output_buffer_size
    }

    /// The source filter, if one is set.
    pub closed spec fn source(&self) -> Option<SourceFilterHandle> {
        self.source_filter
    }

    /// Whether the filter is streaming.
    pub closed spec fn streaming(&self) -> bool {
        self.started
    }

    /// The chunks read for the downstream filter and not taken yet, in order.
    pub closed spec fn pending_output(&self) -> Seq<Seq<u8>> {
        self.output@.map_values(|c: Vec<u8>| c@)
    }

    pub closed spec fn wf(&self) -> bool {
        self.output_buffer_size >= TS_PACKET_SIZE
    }

    /// A filter that buffers and clears on reset, with chunks of 256
    /// transport packets, no buffer, no source, not streaming.
    pub fn new() -> (r: Self)
        ensures
            r.wf(),
            r.buffering(),
            r.clears_on_reset(),
            r.buffer() is None,
            !r.reader_open(),
            r.chunk_size() == 256 * TS_PACKET_SIZE,
            r.source() is None,
            !r.streaming(),
            r.pending_output() == Seq::<Seq<u8>>::empty(),
    {
        let r = AsyncStreamingFilter {
            buffering_enabled: true,
            clear_on_reset: true,
            stream_buffer: None,
            reader: SequentialReader::new(),
            output_buffer_size: 256 * TS_PACKET_SIZE,
            source_filter: None,
            started: false,
            output: Vec::new(),
        };
        assert(r.pending_output() =~= Seq::<Seq<u8>>::empty());
        r
    }

    /// Whether the filter is streaming.
    pub fn is_started(&self) -> (r: bool)
        ensures
            r == self.streaming(),
    {
        self.started
    }

    /// The chunks read for the downstream filter since the last call, in
    /// order; none are left.
    pub fn take_output(&mut self) -> (r: Vec<Vec<u8>>)
        ensures
            r@.map_values(|c: Vec<u8>| c@) == old(self).pending_output(),
            final(self).pending_output() == Seq::<Seq<u8>>::empty(),
            final(self).wf() == old(self).wf(),
            final(self).buffering() == old(self).buffering(),
            final(self).clears_on_reset() == old(self).clears_on_reset(),
            final(self).buffer() == old(self).buffer(),
            final(self).reader_open() == old(self).reader_open(),
            final(self).reader_pos() == old(self).reader_pos(),
            final(self).chunk_size() == old(self).chunk_size(),
            final(self).source() == old(self).source(),
            final(self).streaming() == old(self).streaming(),
    {
        let mut taken: Vec<Vec<u8>> = Vec::new();
        core::mem::swap(&mut self.output, &mut taken);
        assert(self.pending_output() =~= Seq::<Seq<u8>>::empty());
        taken
    }

    /// Creates a buffer of `max_block_count` blocks of `block_size` bytes
    /// (keeping at least `min_block_count`) and sets it; `false`, with
    /// nothing changed, when the sizes are not acceptable.
    pub fn create_buffer(&mut self, block_size: usize, min_block_count: usize, max_block_count: usize) -> (r: bool)
        ensures
            r == buffer_size_ok(block_size as int, min_block_count as int, max_block_count as int),
            r ==> final(self).buffer() is Some,
            !r ==> final(self).buffer() == old(self).buffer(),
            final(self).reader_open() == old(self).reader_open(),
            final(self).wf() == old(self).wf(),
            final(self).buffering() == old(self).buffering(),
            final(self).clears_on_reset() == old(self).clears_on_reset(),
            final(self).chunk_size() == old(self).chunk_size(),
            final(self).source() == old(self).source(),
            final(self).streaming() == old(self).streaming(),
            final(self).pending_output() == old(self).pending_output(),
    {
        if block_size == 0 || max_block_count == 0 || min_block_count > max_block_count {
            return false;
        }
        let buffer = Arc::new(StreamBuffer::new());
        if !buffer.create(block_size, min_block_count, max_block_count, None) {
            return false;
        }
        self.set_buffer(buffer)
    }

    /// Drops the buffer and closes its reader.
    pub fn delete_buffer(&mut self)
        ensures
            final(self).buffer() is None,
            !final(self).reader_open(),
            final(self).wf() == old(self).wf(),
            final(self).buffering() == old(self).buffering(),
            final(self).clears_on_reset() == old(self).clears_on_reset(),
            final(self).chunk_size() == old(self).chunk_size(),
            final(self).source() == old(self).source(),
            final(self).streaming() == old(self).streaming(),
            final(self).pending_output() == old(self).pending_output(),
    {
        self.reader.close();
        self.stream_buffer = None;
    }

    /// Whether a buffer is set.
    pub fn is_buffer_created(&self) -> (r: bool)
        ensures
            r == self.buffer() is Some,
    {
        self.stream_buffer.is_some()
    }

    /// Empties the buffer, if one is set.
    pub fn clear_buffer(&self) {
        match &self.stream_buffer {
            Some(buf) => buf.clear(),
            None => {},
        }
    }

    /// Sets `buffer` as the stream buffer; an open reader moves to it.
    pub fn set_buffer(&mut self, buffer: Arc<StreamBuffer>) -> (r: bool)
        ensures
            r,
            final(self).buffer() == Some(buffer),
            final(self).reader_open() == old(self).reader_open(),
            final(self).wf() == old(self).wf(),
            final(self).buffering() == old(self).buffering(),
            final(self).clears_on_reset() == old(self).clears_on_reset(),
            final(self).chunk_size() == old(self).chunk_size(),
            final(self).source() == old(self).source(),
            final(self).streaming() == old(self).streaming(),
            final(self).pending_output() == old(self).pending_output(),
    {
        let same = match &self.stream_buffer {
            Some(b) => same_buffer(b, &buffer),
            None => false,
        };
        if !same {
            let was_open = self.reader.is_open();
            if was_open {
                self.reader.close();
            }
            self.stream_buffer = Some(clone_buffer(&buffer));
            if was_open {
                self.reader.open(buffer);
            }
        }
        true
    }

    /// The stream buffer, if one is set.
    pub fn get_buffer(&self) -> (r: Option<Arc<StreamBuffer>>)
        ensures
            r == self.buffer(),
    {
        match &self.stream_buffer {
            Some(b) => Some(clone_buffer(b)),
            None => None,
        }
    }

    /// Takes the stream buffer away and closes its reader.
    pub fn detach_buffer(&mut self) -> (r: Option<Arc<StreamBuffer>>)
        ensures
            r == old(self).buffer(),
            final(self).buffer() is None,
            !final(self).reader_open(),
            final(self).wf() == old(self).wf(),
            final(self).buffering() == old(self).buffering(),
            final(self).clears_on_reset() == old(self).clears_on_reset(),
            final(self).chunk_size() == old(self).chunk_size(),
            final(self).source() == old(self).source(),
            final(self).streaming() == old(self).streaming(),
            final(self).pending_output() == old(self).pending_output(),
    {
        self.reader.close();
        let mut taken: Option<Arc<StreamBuffer>> = None;
        core::mem::swap(&mut self.stream_buffer, &mut taken);
        taken
    }

    /// Sets whether received data goes into the buffer.
    pub fn set_buffering_enabled(&mut self, enabled: bool) -> (r: bool)
        ensures
            r,
            final(self).buffering() == enabled,
            final(self).wf() == old(self).wf(),
            final(self).clears_on_reset() == old(self).clears_on_reset(),
            final(self).buffer() == old(self).buffer(),
            final(self).reader_open() == old(self).reader_open(),
            final(self).chunk_size() == old(self).chunk_size(),
            final(self).source() == old(self).source(),
            final(self).streaming() == old(self).streaming(),
            final(self).pending_output() == old(self).pending_output(),
    {
        self.buffering_enabled = enabled;
        true
    }

    /// Whether received data goes into the buffer.
    pub fn get_buffering_enabled(&self) -> (r: bool)
        ensures
            r == self.buffering(),
    {
        self.buffering_enabled
    }

    /// Sets whether a reset empties the buffer.
    pub fn set_clear_on_reset(&mut self, clear: bool)
        ensures
            final(self).clears_on_reset() == clear,
            final(self).wf() == old(self).wf(),
            final(self).buffering() == old(self).buffering(),
            final(self).buffer() == old(self).buffer(),
            final(self).reader_open() == old(self).reader_open(),
            final(self).chunk_size() == old(self).chunk_size(),
            final(self).source() == old(self).source(),
            final(self).streaming() == old(self).streaming(),
            final(self).pending_output() == old(self).pending_output(),
    {
        self.clear_on_reset = clear;
    }

    /// Whether a reset empties the buffer.
    pub fn get_clear_on_reset(&self) -> (r: bool)
        ensures
            r == self.clears_on_reset(),
    {
        self.clear_on_reset
    }

    /// Sets how many bytes a chunk holds at most; `false`, with nothing
    /// changed, below one transport packet.
    pub fn set_output_buffer_size(&mut self, size: usize) -> (r: bool)
        requires
            old(self).wf(),
        ensures
            final(self).wf(),
            r == (size >= TS_PACKET_SIZE),
            final(self).chunk_size() == (if r { size } else { old(self).chunk_size() }),
            final(self).buffering() == old(self).buffering(),
            final(self).clears_on_reset() == old(self).clears_on_reset(),
            final(self).buffer() == old(self).buffer(),
            final(self).reader_open() == old(self).reader_open(),
            final(self).source() == old(self).source(),
            final(self).streaming() == old(self).streaming(),
            final(self).pending_output() == old(self).pending_output(),
    {
        if size < TS_PACKET_SIZE {
            return false;
        }
        self.output_buffer_size = size;
        true
    }

    /// How many bytes a chunk holds at most.
    pub fn get_output_buffer_size(&self) -> (r: usize)
        ensures
            r == self.chunk_size(),
    {
        self.output_buffer_size
    }

    /// Sets the source filter; `false`, with nothing changed, while
    /// streaming.
    pub fn set_source_filter(&mut self, source: Option<SourceFilterHandle>) -> (r: bool)
        ensures
            r == !old(self).streaming(),
            final(self).source() == (if r { source } else { old(self).source() }),
            final(self).wf() == old(self).wf(),
            final(self).buffering() == old(self).buffering(),
            final(self).clears_on_reset() == old(self).clears_on_reset(),
            final(self).buffer() == old(self).buffer(),
            final(self).reader_open() == old(self).reader_open(),
            final(self).chunk_size() == old(self).chunk_size(),
            final(self).streaming() == old(self).streaming(),
            final(self).pending_output() == old(self).pending_output(),
    {
        if self.started {
            return false;
        }
        self.source_filter = source;
        true
    }

    /// Whether the source filter is in pull mode; `false` without one, or
    /// while it is mutably borrowed (from inside one of its own calls).
    pub fn source_uses_pull(&self) -> (r: bool)
        ensures
            self.source() is None ==> !r,
    {
        match &self.source_filter {
            Some(s) => match inspect(s, |f: &(dyn SourceFilter + 'static)| f.get_source_mode().intersects(SourceMode::PULL)) {
                Some(uses_pull) => uses_pull,
                None => false,
            },
            None => false,
        }
    }

    /// Starts streaming; the reader opens on the buffer, if one is set.
    pub fn start_streaming(&mut self) -> (r: bool)
        ensures
            r,
            final(self).streaming(),
            final(self).reader_open() == (old(self).reader_open() || old(self).buffer() is Some),
            final(self).wf() == old(self).wf(),
            final(self).buffering() == old(self).buffering(),
            final(self).clears_on_reset() == old(self).clears_on_reset(),
            final(self).buffer() == old(self).buffer(),
            final(self).chunk_size() == old(self).chunk_size(),
            final(self).source() == old(self).source(),
            final(self).pending_output() == old(self).pending_output(),
    {
        match &self.stream_buffer {
            Some(buf) => {
                let handle = clone_buffer(buf);
                self.reader.open(handle);
            },
            None => {},
        }
        self.started = true;
        true
    }

    /// Stops streaming and closes the reader.
    pub fn stop_streaming(&mut self) -> (r: bool)
        ensures
            r,
            !final(self).streaming(),
            !final(self).reader_open(),
            final(self).wf() == old(self).wf(),
            final(self).buffering() == old(self).buffering(),
            final(self).clears_on_reset() == old(self).clears_on_reset(),
            final(self).buffer() == old(self).buffer(),
            final(self).chunk_size() == old(self).chunk_size(),
            final(self).source() == old(self).source(),
            final(self).pending_output() == old(self).pending_output(),
    {
        self.reader.close();
        self.started = false;
        true
    }

    /// Reads a chunk of at most the chunk size from the buffer for the
    /// downstream filter: whether any byte was read, which moves the
    /// reader forward; `false`, with nothing sent, when nothing was read.
    pub fn process_stream(&mut self) -> (r: bool)
        requires
            old(self).wf(),
        ensures
            final(self).wf(),
            !old(self).reader_open() ==> !r,
            r ==> final(self).reader_pos() > old(self).reader_pos(),
            r ==> exists|chunk: Seq<u8>|
                0 < chunk.len() <= old(self).chunk_size() && final(self).pending_output() == #[trigger] old(
                    self,
                ).pending_output().push(chunk),
            !r ==> final(self).pending_output() == old(self).pending_output(),
            final(self).reader_pos() >= old(self).reader_pos(),
            final(self).reader_open() == old(self).reader_open(),
            final(self).buffering() == old(self).buffering(),
            final(self).clears_on_reset() == old(self).clears_on_reset(),
            final(self).buffer() == old(self).buffer(),
            final(self).chunk_size() == old(self).chunk_size(),
            final(self).source() == old(self).source(),
            final(self).streaming() == old(self).streaming(),
    {
        if !self.reader.is_data_available() {
            return false;
        }
        let mut buf: Vec<u8> = vec![0u8; self.output_buffer_size];
        let n = self.reader.read(buf.as_mut_slice());
        if n == 0 {
            return false;
        }
        buf.truncate(n);
        let ghost before = self.pending_output();
        let ghost data = buf@;
        assert(before == old(self).pending_output());
        assert(0 < data.len() <= old(self).chunk_size());
        self.output.push(buf);
        assert(self.pending_output() =~= before.push(data));
        assert(self.pending_output() == old(self).pending_output().push(data));
        true
    }

    /// Asks a source filter for as much as the buffer has room for: `false`
    /// without a buffer or when it has no room.
    pub fn pull_source(&self) -> (r: bool)
        ensures
            r ==> self.buffer() is Some,
    {
        let free_space = match &self.stream_buffer {
            Some(buf) => buf.get_free_space(),
            None => {
                return false;
            },
        };
        if free_space == 0 {
            return false;
        }
        match &self.source_filter {
            Some(src) => {
                let fetch = |f: &mut (dyn SourceFilter + 'static)| {
                    f.fetch_source(free_space);
                };
                apply_to_shared(src, &fetch);
            },
            None => {},
        }
        true
    }

    /// Sends on everything the buffer holds: reads chunks until no data is
    /// left or a read gives nothing; at once when not streaming.
    pub fn wait_for_end_of_stream(&mut self) -> (r: bool)
        requires
            old(self).wf(),
        ensures
            r,
            final(self).wf(),
            !old(self).streaming() ==> *final(self) == *old(self),
            exists|chunks: Seq<Seq<u8>>|
                final(self).pending_output() == old(self).pending_output() + chunks
                    && forall|i: int| 0 <= i < chunks.len() ==> 0 < #[trigger] chunks[i].len() <= old(self).chunk_size(),
            final(self).reader_pos() >= old(self).reader_pos(),
            final(self).reader_open() == old(self).reader_open(),
            final(self).buffering() == old(self).buffering(),
            final(self).clears_on_reset() == old(self).clears_on_reset(),
            final(self).buffer() == old(self).buffer(),
            final(self).chunk_size() == old(self).chunk_size(),
            final(self).source() == old(self).source(),
            final(self).streaming() == old(self).streaming(),
    {
        if !self.started {
            assert(self.pending_output() =~= old(self).pending_output() + Seq::<Seq<u8>>::empty());
            return true;
        }
        let ghost mut chunks: Seq<Seq<u8>> = Seq::empty();
        assert(self.pending_output() =~= old(self).pending_output() + chunks);
        while self.reader.is_data_available()
            invariant
                self.wf(),
                self.pending_output() == old(self).pending_output() + chunks,
                forall|i: int| 0 <= i < chunks.len() ==> 0 < #[trigger] chunks[i].len() <= old(self).chunk_size(),
                self.reader_pos() >= old(self).reader_pos(),
                self.reader_open() == old(self).reader_open(),
                self.buffering() == old(self).buffering(),
                self.clears_on_reset() == old(self).clears_on_reset(),
                self.buffer() == old(self).buffer(),
                self.chunk_size() == old(self).chunk_size(),
                self.source() == old(self).source(),
                self.streaming() == old(self).streaming(),
            decreases i64::MAX - self.reader_pos(),
        {
            let ghost before = self.pending_output();
            if !self.process_stream() {
                break;
            }
            proof {
                let c = choose|c: Seq<u8>| 0 < c.len() <= old(self).chunk_size() && self.pending_output() == #[trigger] before.push(c);
                chunks = chunks.push(c);
                assert(self.pending_output() =~= old(self).pending_output() + chunks);
            }
        }
        true
    }

    /// Empties the buffer when the filter clears on reset.
    pub fn reset(&self) {
        if self.clear_on_reset {
            match &self.stream_buffer {
                Some(buf) => buf.clear(),
                None => {},
            }
        }
    }

    /// Pushes each received item into the buffer, when buffering and a
    /// buffer is set.
    pub fn receive_data(&mut self, items: &[&[u8]]) -> (r: bool)
        ensures
            r,
            *final(self) == *old(self),
    {
        if self.buffering_enabled {
            match &self.stream_buffer {
                Some(buf) => {
                    let mut i: usize = 0;
                    while i < items.len()
                        decreases items@.len() - i,
                    {
                        buf.push_back(items[i]);
                        i = i + 1;
                    }
                },
                None => {},
            }
        }
        true
    }
}

} // verus!
