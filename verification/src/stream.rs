//! Byte streams: the `Stream` interface and an in-memory implementation.
use vstd::prelude::*;

verus! {

/// Origin of a seek.
#[derive(Clone, Copy, Debug, PartialEq, Eq, Structural)]
pub enum SetPosType {
    Begin,
    Current,
    End,
}

/// A readable and writable byte stream.
pub trait Stream {
    /// Closes the stream.
    fn close(&mut self) -> bool;

    /// Whether the stream is open.
    fn is_open(&self) -> bool;

    /// Reads into `buf`; returns the number of bytes read.
    fn read(&mut self, buf: &mut [u8]) -> usize;

    /// Writes `buf`; returns the number of bytes written.
    fn write(&mut self, buf: &[u8]) -> usize;

    /// Flushes buffered data.
    fn flush(&mut self) -> bool;

    /// The size of the whole stream.
    fn get_size(&mut self) -> u64;

    /// The current position.
    fn get_pos(&mut self) -> i64;

    /// Moves the current position.
    fn set_pos(&mut self, pos: i64, pos_type: SetPosType) -> bool;

    /// Whether the position is at or past the end.
    fn is_end(&self) -> bool;
}

/// The contents after writing `buf` at `pos` into `old`: the stream grows (with zeros
/// between its old end and `pos`) as far as the write reaches.
pub open spec fn written(old: Seq<u8>, pos: int, buf: Seq<u8>) -> Seq<u8> {
    let end = pos + buf.len();
    let len = if end > old.len() { end } else { old.len() as int };
    Seq::new(len as nat, |i: int|
        if pos <= i < end {
            buf[i - pos]
        } else if i < old.len() {
            old[i]
        } else {
            0u8
        })
}

/// What a write puts reads back: after writing `buf` at `pos`, the bytes
/// from `pos` on are `buf`, the bytes before `pos` that the stream held are
/// kept, and the stream is as long as the longer of its old length and the
/// end of the write.
pub proof fn lemma_write_reads_back(old: Seq<u8>, pos: int, buf: Seq<u8>)
    requires
        0 <= pos,
    ensures
        written(old, pos, buf).subrange(pos, pos + buf.len()) == buf,
        forall|i: int| 0 <= i < pos && i < old.len() ==> #[trigger] written(old, pos, buf)[i] == old[i],
        written(old, pos, buf).len() == (if pos + buf.len() > old.len() { pos + buf.len() } else { old.len() as int }),
{
    assert(written(old, pos, buf).subrange(pos, pos + buf.len()) =~= buf);
}

/// An in-memory byte stream.
pub struct MemoryStream {
    data: Vec<u8>,
    pos: usize,
    open: bool,
}

impl MemoryStream {
    /// The bytes held.
    pub closed spec fn contents(&self) -> Seq<u8> {
        self.data@
    }

    /// The current position (may lie past the end).
    pub closed spec fn position(&self) -> usize {
        self.pos
    }

    /// Whether the stream is open.
    pub closed spec fn opened(&self) -> bool {
        self.open
    }

    /// An open stream over `data`, positioned at its start.
    pub fn new(data: Vec<u8>) -> (r: Self)
        ensures
            r.contents() == data@,
            r.position() == 0,
            r.opened(),
    {
        MemoryStream { data, pos: 0, open: true }
    }

    /// An open, empty stream.
    pub fn empty() -> (r: Self)
        ensures
            r.contents() == Seq::<u8>::empty(),
            r.position() == 0,
            r.opened(),
    {
        Self::new(Vec::new())
    }

    /// The bytes held.
    pub fn data(&self) -> (r: &[u8])
        ensures
            r@ == self.contents(),
    {
        self.data.as_slice()
    }
}

impl Stream for MemoryStream {
    /// Closes the stream; always succeeds.
    fn close(&mut self) -> (r: bool)
        ensures
            r,
            !final(self).opened(),
            final(self).contents() == old(self).contents(),
            final(self).position() == old(self).position(),
    {
        self.open = false;
        true
    }

    fn is_open(&self) -> (r: bool)
        ensures
            r == self.opened(),
    {
        self.open
    }

    /// Copies bytes from the position into `buf`, as many as both have, and advances.
    /// Nothing is read from a closed stream, into an empty buffer, or from a position past the end.
    fn read(&mut self, buf: &mut [u8]) -> (r: usize)
        ensures
            final(self).contents() == old(self).contents(),
            final(self).opened() == old(self).opened(),
            final(buf)@.len() == old(buf)@.len(),
            ({
                let len = old(self).contents().len();
                let pos = old(self).position() as int;
                if !old(self).opened() || old(buf)@.len() == 0 || pos > len {
                    &&& r == 0
                    &&& final(self).position() == old(self).position()
                    &&& final(buf)@ == old(buf)@
                } else {
                    let n = if len - pos < old(buf)@.len() { len - pos } else { old(buf)@.len() as int };
                    &&& r == n
                    &&& final(self).position() == pos + n
                    &&& final(buf)@ == old(self).contents().subrange(pos, pos + n) + old(buf)@.subrange(n, old(buf)@.len() as int)
                }
            }),
    {
        if !self.open || buf.len() == 0 || self.pos > self.data.len() {
            return 0;
        }
        let avail = self.data.len() - self.pos;
        let n = if avail < buf.len() { avail } else { buf.len() };
        let mut i: usize = 0;
        while i < n
            invariant
                i <= n,
                n <= buf@.len(),
                self.pos + n <= self.data.len(),
                buf@.len() == old(buf)@.len(),
                forall|k: int| 0 <= k < i ==> #[trigger] buf@[k] == self.data@[self.pos + k],
                forall|k: int| i <= k < buf@.len() ==> #[trigger] buf@[k] == old(buf)@[k],
            decreases n - i,
        {
            buf[i] = self.data[self.pos + i];
            i = i + 1;
        }
        assert(buf@ =~= self.data@.subrange(self.pos as int, self.pos + n) + old(buf)@.subrange(n as int, old(buf)@.len() as int));
        self.pos = self.pos + n;
        n
    }

    /// Writes `buf` at the position, growing the stream as needed, and advances past it.
    /// Nothing is written to a closed stream, from an empty buffer, or where the end
    /// position would not fit in a `usize`.
    fn write(&mut self, buf: &[u8]) -> (r: usize)
        ensures
            final(self).opened() == old(self).opened(),
            ({
                let pos = old(self).position() as int;
                if !old(self).opened() || buf@.len() == 0 || pos + buf@.len() > usize::MAX {
                    &&& r == 0
                    &&& final(self).contents() == old(self).contents()
                    &&& final(self).position() == old(self).position()
                } else {
                    &&& r == buf@.len()
                    &&& final(self).contents() == written(old(self).contents(), pos, buf@)
                    &&& final(self).position() == pos + buf@.len()
                }
            }),
    {
        if !self.open || buf.len() == 0 {
            return 0;
        }
        let end = match self.pos.checked_add(buf.len()) {
            Some(e) => e,
            None => return 0,
        };
        let ghost old_data = self.data@;
        if end > self.data.len() {
            self.data.resize(end, 0u8);
        }
        let ghost grown = self.data@;
        let mut i: usize = 0;
        while i < buf.len()
            invariant
                self.pos + buf@.len() == end,
                self.pos == old(self).pos,
                self.open == old(self).open,
                end <= self.data@.len(),
                self.data@.len() == grown.len(),
                i <= buf@.len(),
                forall|k: int| 0 <= k < self.data@.len() && !(self.pos <= k < self.pos + i) ==> #[trigger] self.data@[k] == grown[k],
                forall|k: int| self.pos <= k < self.pos + i ==> #[trigger] self.data@[k] == buf@[k - self.pos],
            decreases buf@.len() - i,
        {
            self.data.set(self.pos + i, buf[i]);
            i = i + 1;
        }
        proof {
            assert forall|k: int| 0 <= k < grown.len() && !(self.pos <= k < end) implies grown[k] == (if k < old_data.len() { old_data[k] } else { 0u8 }) by {
                if end > old_data.len() {
                    assert(grown.subrange(0, old_data.len() as int) == old_data);
                    if k < old_data.len() {
                        assert(grown.subrange(0, old_data.len() as int)[k] == grown[k]);
                    }
                }
            }
            assert(self.data@ =~= written(old_data, self.pos as int, buf@));
        }
        self.pos = end;
        buf.len()
    }

    fn flush(&mut self) -> (r: bool)
        ensures
            r,
            final(self).contents() == old(self).contents(),
            final(self).position() == old(self).position(),
            final(self).opened() == old(self).opened(),
    {
        true
    }

    fn get_size(&mut self) -> (r: u64)
        ensures
            r == old(self).contents().len(),
            final(self).contents() == old(self).contents(),
            final(self).position() == old(self).position(),
            final(self).opened() == old(self).opened(),
    {
        self.data.len() as u64
    }

    fn get_pos(&mut self) -> (r: i64)
        ensures
            r == old(self).position() as i64,
            final(self).contents() == old(self).contents(),
            final(self).position() == old(self).position(),
            final(self).opened() == old(self).opened(),
    {
        self.pos as i64
    }

    /// Moves to `pos` from the origin; positions before the start are refused, positions
    /// past the end are allowed. A move whose target does not fit in an `i64` is refused.
    fn set_pos(&mut self, pos: i64, pos_type: SetPosType) -> (r: bool)
        ensures
            final(self).contents() == old(self).contents(),
            final(self).opened() == old(self).opened(),
            ({
                let base: int = match pos_type {
                    SetPosType::Begin => 0,
                    SetPosType::Current => (old(self).position() as i64) as int,
                    SetPosType::End => (old(self).contents().len() as i64) as int,
                };
                let target = base + pos;
                if target < 0 || target > i64::MAX {
                    !r && final(self).position() == old(self).position()
                } else {
                    r && final(self).position() == target as usize
                }
            }),
    {
        let base: i64 = match pos_type {
            SetPosType::Begin => 0i64,
            SetPosType::Current => self.pos as i64,
            SetPosType::End => self.data.len() as i64,
        };
        let new_pos = match base.checked_add(pos) {
            Some(p) => p,
            None => return false,
        };
        if new_pos < 0 {
            return false;
        }
        self.pos = new_pos as usize;
        true
    }

    fn is_end(&self) -> (r: bool)
        ensures
            r == (self.position() >= self.contents().len()),
    {
        self.pos >= self.data.len()
    }
}

} // verus!
