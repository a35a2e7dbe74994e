//! Fixed-capacity data storages and the managers that create them.
use vstd::prelude::*;

verus! {

/// Sizes and positions within a storage.
pub type SizeType = u64;

/// The contents of a storage after `n` bytes of `data` were written at
/// `pos`.
pub open spec fn stored(contents: Seq<u8>, pos: int, data: Seq<u8>, n: int) -> Seq<u8> {
    contents.subrange(0, pos) + data.subrange(0, n) + contents.subrange(pos + n, contents.len() as int)
}

/// What a write to a storage puts reads back: after `n` bytes of `data` were
/// written at `pos`, the `n` bytes from `pos` on are the first `n` bytes of
/// `data`, and the other bytes and the capacity are kept.
pub proof fn lemma_storage_write_reads_back(contents: Seq<u8>, pos: int, data: Seq<u8>, n: int)
    requires
        0 <= pos,
        0 <= n <= data.len(),
        pos + n <= contents.len(),
    ensures
        stored(contents, pos, data, n).subrange(pos, pos + n) == data.subrange(0, n),
        stored(contents, pos, data, n).len() == contents.len(),
        forall|i: int| 0 <= i < contents.len() && !(pos <= i < pos + n) ==> #[trigger] stored(contents, pos, data, n)[i] == contents[i],
{
    assert(stored(contents, pos, data, n).subrange(pos, pos + n) =~= data.subrange(0, n));
}

/// A storage of bytes with a fixed capacity, a data size and a read/write position.
///
/// The contents always span the capacity; the data size is the high-water mark of writes.
pub trait DataStorage: Send {
    /// The capacity.
    spec fn capacity(&self) -> SizeType;

    /// The number of bytes holding data.
    spec fn data_size(&self) -> SizeType;

    /// The read/write position.
    spec fn position(&self) -> SizeType;

    /// The bytes of the storage, as many as the capacity.
    spec fn contents(&self) -> Seq<u8>;

    /// Allocates a buffer of `size` bytes, dropping what was held.
    fn allocate(&mut self, size: SizeType) -> (r: bool)
        ensures
            r ==> final(self).capacity() == size && final(self).data_size() == 0 && final(self).position() == 0
                && final(self).contents().len() == size,
    ;

    /// Releases the buffer.
    fn free(&mut self)
        ensures
            final(self).capacity() == 0,
            final(self).data_size() == 0,
            final(self).position() == 0,
            final(self).contents().len() == 0,
    ;

    fn get_capacity(&self) -> (r: SizeType)
        ensures
            r == self.capacity(),
    ;

    fn get_data_size(&self) -> (r: SizeType)
        ensures
            r == self.data_size(),
    ;

    /// Reads the data from the position on into `buf`, as much as fits, and advances.
    fn read(&mut self, buf: &mut [u8]) -> (r: usize)
        requires
            old(self).contents().len() == old(self).capacity(),
            old(self).data_size() <= old(self).capacity(),
        ensures
            final(self).capacity() == old(self).capacity(),
            final(self).data_size() == old(self).data_size(),
            final(self).contents() == old(self).contents(),
            final(buf)@.len() == old(buf)@.len(),
            ({
                let pos = old(self).position() as int;
                let size = old(self).data_size() as int;
                if pos >= size {
                    &&& r == 0
                    &&& final(self).position() == old(self).position()
                    &&& final(buf)@ == old(buf)@
                } else {
                    let n = if old(buf)@.len() < size - pos { old(buf)@.len() as int } else { size - pos };
                    &&& r == n
                    &&& final(self).position() == pos + n
                    &&& final(buf)@ == old(self).contents().subrange(pos, pos + n) + old(buf)@.subrange(n, old(buf)@.len() as int)
                }
            }),
    ;

    /// Writes `data` at the position, as much as the capacity allows, advances, and
    /// raises the data size to the new position.
    fn write(&mut self, data: &[u8]) -> (r: usize)
        requires
            old(self).contents().len() == old(self).capacity(),
            old(self).position() <= old(self).capacity(),
            old(self).data_size() <= old(self).capacity(),
        ensures
            final(self).capacity() == old(self).capacity(),
            ({
                let pos = old(self).position() as int;
                let cap = old(self).capacity() as int;
                if pos >= cap {
                    &&& r == 0
                    &&& final(self).contents() == old(self).contents()
                    &&& final(self).position() == old(self).position()
                    &&& final(self).data_size() == old(self).data_size()
                } else {
                    let n = if data@.len() < cap - pos { data@.len() as int } else { cap - pos };
                    &&& r == n
                    &&& final(self).position() == pos + n
                    &&& final(self).contents() == stored(old(self).contents(), pos, data@, n)
                    &&& final(self).data_size() == (if old(self).data_size() < pos + n { pos + n } else { old(self).data_size() as int })
                }
            }),
    ;

    /// Moves the position; positions past the capacity are refused.
    fn set_pos(&mut self, pos: SizeType) -> (r: bool)
        ensures
            r == (pos <= old(self).capacity()),
            final(self).capacity() == old(self).capacity(),
            final(self).data_size() == old(self).data_size(),
            final(self).contents() == old(self).contents(),
            final(self).position() == (if r { pos } else { old(self).position() }),
    ;

    fn get_pos(&self) -> (r: SizeType)
        ensures
            r == self.position(),
    ;

    /// Whether a buffer is allocated.
    fn is_allocated(&self) -> (r: bool)
        ensures
            r == (self.capacity() > 0),
    {
        self.get_capacity() > 0
    }

    /// Whether the data fills the capacity.
    fn is_full(&self) -> (r: bool)
        ensures
            r == (self.capacity() <= self.data_size()),
    {
        self.get_capacity() <= self.get_data_size()
    }

    /// Whether the position has reached the capacity.
    fn is_end(&self) -> (r: bool)
        ensures
            r == (self.capacity() <= self.position()),
    {
        self.get_capacity() <= self.get_pos()
    }
}

/// A data storage in memory.
#[derive(Debug)]
pub struct MemoryDataStorage {
    buffer: Vec<u8>,
    data_size: usize,
    pos: usize,
}

impl MemoryDataStorage {
    #[verifier::type_invariant]
    spec fn inv(&self) -> bool {
        &&& self.data_size <= self.buffer@.len()
        &&& self.pos <= self.buffer@.len()
    }

    /// An empty storage with no buffer.
    pub fn new() -> (r: Self)
        ensures
            r.contents() == Seq::<u8>::empty(),
            r.capacity() == 0,
            r.data_size() == 0,
            r.position() == 0,
    {
        MemoryDataStorage { buffer: Vec::new(), data_size: 0, pos: 0 }
    }
}

impl Default for MemoryDataStorage {
    fn default() -> (r: Self)
        ensures
            r.contents() == Seq::<u8>::empty(),
            r.capacity() == 0,
            r.data_size() == 0,
            r.position() == 0,
    {
        Self::new()
    }
}

impl DataStorage for MemoryDataStorage {
    closed spec fn capacity(&self) -> SizeType {
        self.buffer@.len() as SizeType
    }

    closed spec fn data_size(&self) -> SizeType {
        self.data_size as SizeType
    }

    closed spec fn position(&self) -> SizeType {
        self.pos as SizeType
    }

    closed spec fn contents(&self) -> Seq<u8> {
        self.buffer@
    }

    /// Allocates `size` zero bytes and empties the storage; refused when `size` does not fit a `usize`.
    fn allocate(&mut self, size: SizeType) -> (r: bool)
        ensures
            r == (size <= usize::MAX),
            r ==> final(self).contents() == Seq::new(size as nat, |i: int| 0u8),
            !r ==> final(self).contents() == old(self).contents(),
            !r ==> final(self).data_size() == old(self).data_size(),
            !r ==> final(self).position() == old(self).position(),
    {
        if size > usize::MAX as SizeType {
            return false;
        }
        let size = size as usize;
        let buffer = vec![0u8; size];
        *self = MemoryDataStorage { buffer, data_size: 0, pos: 0 };
        assert(self.buffer@ =~= Seq::new(size as nat, |i: int| 0u8));
        true
    }

    fn free(&mut self) {
        *self = Self::new();
    }

    fn get_capacity(&self) -> (r: SizeType) {
        self.buffer.len() as SizeType
    }

    fn get_data_size(&self) -> (r: SizeType) {
        self.data_size as SizeType
    }

    fn read(&mut self, buf: &mut [u8]) -> (r: usize) {
        proof {
            use_type_invariant(&*self);
        }
        if self.pos >= self.data_size {
            return 0;
        }
        let avail = self.data_size - self.pos;
        let copy = if buf.len() < avail { buf.len() } else { avail };
        let mut i: usize = 0;
        while i < copy
            invariant
                i <= copy,
                copy <= buf@.len(),
                self.pos + copy <= self.buffer.len(),
                buf@.len() == old(buf)@.len(),
                forall|k: int| 0 <= k < i ==> #[trigger] buf@[k] == self.buffer@[self.pos + k],
                forall|k: int| i <= k < buf@.len() ==> #[trigger] buf@[k] == old(buf)@[k],
            decreases copy - i,
        {
            buf[i] = self.buffer[self.pos + i];
            i = i + 1;
        }
        assert(buf@ =~= self.buffer@.subrange(self.pos as int, self.pos + copy) + old(buf)@.subrange(copy as int, old(buf)@.len() as int));
        self.pos = self.pos + copy;
        copy
    }

    fn write(&mut self, data: &[u8]) -> (r: usize) {
        proof {
            use_type_invariant(&*self);
        }
        let capacity = self.buffer.len();
        if self.pos >= capacity {
            return 0;
        }
        let avail = capacity - self.pos;
        let copy = if data.len() < avail { data.len() } else { avail };
        let mut held = MemoryDataStorage::new();
        core::mem::swap(self, &mut held);
        proof {
            use_type_invariant(&held);
        }
        let MemoryDataStorage { buffer: mut buffer, data_size, pos } = held;
        let ghost old_buf = buffer@;
        let mut i: usize = 0;
        while i < copy
            invariant
                i <= copy,
                copy <= data@.len(),
                pos + copy <= capacity,
                capacity == buffer@.len(),
                old_buf.len() == capacity,
                forall|k: int| 0 <= k < capacity && !(pos <= k < pos + i) ==> #[trigger] buffer@[k] == old_buf[k],
                forall|k: int| pos <= k < pos + i ==> #[trigger] buffer@[k] == data@[k - pos],
            decreases copy - i,
        {
            buffer.set(pos + i, data[i]);
            i = i + 1;
        }
        assert(buffer@ =~= old_buf.subrange(0, pos as int) + data@.subrange(0, copy as int) + old_buf.subrange(pos + copy, capacity as int));
        let new_pos = pos + copy;
        let new_size = if data_size < new_pos { new_pos } else { data_size };
        *self = MemoryDataStorage { buffer, data_size: new_size, pos: new_pos };
        copy
    }

    fn set_pos(&mut self, pos: SizeType) -> (r: bool) {
        proof {
            use_type_invariant(&*self);
        }
        let cap = self.buffer.len();
        if pos > cap as SizeType {
            return false;
        }
        self.pos = pos as usize;
        true
    }

    fn get_pos(&self) -> (r: SizeType) {
        self.pos as SizeType
    }
}

/// Creates data storages.
pub trait DataStorageManager: Send {
    /// A new, unallocated storage; by default one in memory.
    fn create_data_storage(&self) -> (r: Box<dyn DataStorage>) {
        Box::new(MemoryDataStorage::new())
    }
}

/// Creates storages in memory.
pub struct MemoryDataStorageManager;

impl DataStorageManager for MemoryDataStorageManager {}

} // verus!
