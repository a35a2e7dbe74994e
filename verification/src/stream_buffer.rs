//! A block queue of stream data with independent sequential readers.
use vstd::prelude::*;
use std::sync::Arc;
use crate::data_storage::{DataStorage, DataStorageManager, MemoryDataStorage, MemoryDataStorageManager, SizeType};

verus! {

/// Positions in the stream (serial byte numbers).
pub type PosType = i64;

/// A reader position meaning "the beginning of the buffered data".
pub const POS_BEGIN: PosType = -1;

/// A reader position meaning "not positioned".
pub const POS_INVALID: PosType = -2;

// ---------------------------------------------------------------------------
// Model
// ---------------------------------------------------------------------------

/// One block of the queue: where its data starts in the stream, its capacity and its data.
pub struct BlockView {
    pub serial: int,
    pub capacity: nat,
    pub data: Seq<u8>,
}

/// The bytes of the blocks, read in order: byte `k` lies in block `k / block_size`.
pub open spec fn blocks_stream(blocks: Seq<BlockView>, block_size: nat, len: nat) -> Seq<u8> {
    Seq::new(len, |k: int| blocks[k / block_size as int].data[k % block_size as int])
}

/// The number of bytes held by the blocks: all but the last are full.
pub open spec fn blocks_len(blocks: Seq<BlockView>, block_size: nat) -> nat {
    if blocks.len() == 0 {
        0
    } else {
        ((blocks.len() - 1) * block_size + blocks.last().data.len()) as nat
    }
}

/// Whether the blocks are laid out back to back, each of `block_size` bytes and all but the last full.
pub open spec fn blocks_laid_out(blocks: Seq<BlockView>, block_size: nat) -> bool {
    &&& blocks.len() > 0 ==> block_size > 0 && blocks[0].serial >= 0
    &&& forall|i: int| 0 <= i < blocks.len() ==> (#[trigger] blocks[i]).capacity == block_size
        && blocks[i].data.len() <= block_size
        && blocks[i].serial == blocks[0].serial + i * block_size
    &&& forall|i: int| 0 <= i < blocks.len() - 1 ==> (#[trigger] blocks[i]).data.len() == block_size
}

/// Whether a reader at `pos` keeps the block starting at `serial` from being dropped.
pub open spec fn locks(pos: PosType, serial: int, capacity: nat) -> bool {
    0 <= pos && pos < serial + capacity
}

/// Whether some reader keeps the block from being dropped.
pub open spec fn block_locked(readers: Seq<(u64, PosType)>, b: BlockView) -> bool {
    exists|i: int| 0 <= i < readers.len() && locks(#[trigger] readers[i].1, b.serial, b.capacity)
}

/// The state of a stream buffer.
pub struct BufferView {
    pub block_size: nat,
    pub min_blocks: nat,
    pub max_blocks: nat,
    pub blocks: Seq<BlockView>,
    /// The stream position after the last byte pushed.
    pub end: int,
    pub readers: Seq<(u64, PosType)>,
    pub has_manager: bool,
    /// Blocks are allocated in memory by the buffer itself (no manager was given).
    pub in_memory: bool,
}

impl BufferView {
    /// The stream position of the first byte held.
    pub open spec fn begin(self) -> int {
        if self.blocks.len() == 0 {
            self.end
        } else {
            self.blocks[0].serial
        }
    }

    /// The bytes held, from `begin()` to `end`.
    pub open spec fn stream(self) -> Seq<u8> {
        blocks_stream(self.blocks, self.block_size, blocks_len(self.blocks, self.block_size))
    }
}

/// Whether block sizes and counts are acceptable: positive sizes, at most
/// `usize::MAX` bytes in all, and no more blocks kept than allowed.
pub open spec fn buffer_size_ok(block_size: int, min_blocks: int, max_blocks: int) -> bool {
    &&& block_size > 0
    &&& max_blocks > 0
    &&& block_size * max_blocks <= usize::MAX
    &&& min_blocks <= max_blocks
}

// ---------------------------------------------------------------------------
// Blocks
// ---------------------------------------------------------------------------

struct QueueBlock {
    storage: Option<Box<dyn DataStorage>>,
    serial_pos: PosType,
}

impl QueueBlock {
    spec fn ok(&self) -> bool {
        let s = self.storage.unwrap();
        &&& self.storage is Some
        &&& s.contents().len() == s.capacity()
        &&& s.position() <= s.data_size()
        &&& s.data_size() <= s.capacity()
        &&& s.capacity() <= usize::MAX
    }

    spec fn view(&self) -> BlockView {
        let s = self.storage.unwrap();
        BlockView {
            serial: self.serial_pos as int,
            capacity: s.capacity() as nat,
            data: s.contents().subrange(0, s.position() as int),
        }
    }

    fn empty() -> (r: Self)
        ensures
            r.storage is None,
            r.serial_pos == POS_INVALID,
    {
        QueueBlock { storage: None, serial_pos: POS_INVALID }
    }

    /// Forgets the data; the block is written again from its start.
    fn reuse(&mut self)
        requires
            old(self).ok(),
        ensures
            final(self).ok(),
            final(self).view() == (BlockView { serial: POS_INVALID as int, data: Seq::empty(), ..old(self).view() }),
    {
        let mut st: Option<Box<dyn DataStorage>> = None;
        core::mem::swap(&mut self.storage, &mut st);
        match st {
            Some(mut s) => {
                s.set_pos(0);
                let mut back = Some(s);
                core::mem::swap(&mut self.storage, &mut back);
            },
            None => {},
        }
        self.serial_pos = POS_INVALID;
        assert(self.view().data =~= Seq::<u8>::empty());
    }

    /// Appends as much of `data` as the block has room for.
    fn write(&mut self, data: &[u8]) -> (r: usize)
        requires
            old(self).ok(),
        ensures
            final(self).ok(),
            ({
                let v = old(self).view();
                let room = v.capacity - v.data.len();
                let n = if data@.len() < room { data@.len() as int } else { room };
                &&& r == n
                &&& final(self).view() == (BlockView { data: v.data + data@.subrange(0, n), ..v })
            }),
    {
        let ghost v = self.view();
        match self.storage.as_mut() {
            Some(s) => {
                let capacity = s.get_capacity();
                let pos = s.get_pos();
                if pos >= capacity {
                    return 0;
                }
                let room = (capacity - pos) as usize;
                let write_size = if data.len() < room { data.len() } else { room };
                if write_size > 0 {
                    let ghost before = s.contents();
                    let n = s.write(crate::utilities::sub_slice(data, 0, write_size));
                    proof {
                        assert(s.contents().subrange(0, s.position() as int) =~= v.data + data@.subrange(0, n as int));
                    }
                    n
                } else {
                    0
                }
            },
            None => 0,
        }
    }

    /// Copies data from `offset` on into `buf` from `at` on, as much as fits.
    fn read(&mut self, offset: usize, buf: &mut [u8], at: usize) -> (r: usize)
        requires
            old(self).ok(),
            at <= old(buf)@.len(),
        ensures
            final(self).ok(),
            final(self).view() == old(self).view(),
            final(buf)@.len() == old(buf)@.len(),
            ({
                let d = old(self).view().data;
                let room = old(buf)@.len() - at;
                if offset >= d.len() {
                    r == 0 && final(buf)@ == old(buf)@
                } else {
                    let n = if room < d.len() - offset { room } else { d.len() - offset };
                    &&& r == n
                    &&& final(buf)@ == old(buf)@.subrange(0, at as int) + d.subrange(offset as int, offset + n)
                        + old(buf)@.subrange(at + n, old(buf)@.len() as int)
                }
            }),
    {
        let ghost v = self.view();
        match self.storage.as_mut() {
            Some(s) => {
                let write_pos = s.get_pos();
                if offset as SizeType >= write_pos {
                    return 0;
                }
                s.set_pos(offset as SizeType);
                let avail = (write_pos - offset as SizeType) as usize;
                let room = buf.len() - at;
                let read_size = if room < avail { room } else { avail };
                let mut tmp: Vec<u8> = vec![0u8; read_size];
                let n = s.read(tmp.as_mut_slice());
                s.set_pos(write_pos);
                let mut i: usize = 0;
                while i < n
                    invariant
                        i <= n,
                        n == read_size,
                        at + read_size <= buf.len(),
                        tmp@.len() == read_size,
                        buf@.len() == old(buf)@.len(),
                        forall|k: int| 0 <= k < at ==> #[trigger] buf@[k] == old(buf)@[k],
                        forall|k: int| at <= k < at + i ==> #[trigger] buf@[k] == tmp@[k - at],
                        forall|k: int| at + i <= k < buf@.len() ==> #[trigger] buf@[k] == old(buf)@[k],
                    decreases n - i,
                {
                    buf[at + i] = tmp[i];
                    i = i + 1;
                }
                proof {
                    assert(tmp@ =~= v.data.subrange(offset as int, offset + n));
                    assert(buf@ =~= old(buf)@.subrange(0, at as int) + v.data.subrange(offset as int, offset + n)
                        + old(buf)@.subrange(at + n, old(buf)@.len() as int));
                    assert(s.contents().subrange(0, s.position() as int) =~= v.data);
                }
                n
            },
            None => 0,
        }
    }

    fn get_capacity(&self) -> (r: usize)
        requires
            self.ok(),
        ensures
            r == self.view().capacity,
    {
        match self.storage.as_ref() {
            Some(s) => s.get_capacity() as usize,
            None => 0,
        }
    }

    /// The number of bytes written since the block was (re)started.
    fn get_data_size(&self) -> (r: usize)
        requires
            self.ok(),
        ensures
            r == self.view().data.len(),
    {
        match self.storage.as_ref() {
            Some(s) => s.get_pos() as usize,
            None => 0,
        }
    }

    fn is_full(&self) -> (r: bool)
        requires
            self.ok(),
        ensures
            r == (self.view().data.len() >= self.view().capacity),
    {
        match self.storage.as_ref() {
            Some(s) => s.is_end(),
            None => true,
        }
    }
}


// ---------------------------------------------------------------------------
// Facts about the block layout
// ---------------------------------------------------------------------------

proof fn lemma_block_index(k: int, q: int, bs: int)
    requires
        bs > 0,
        q * bs <= k < q * bs + bs,
    ensures
        k / bs == q,
        k % bs == k - q * bs,
{
    vstd::arithmetic::div_mod::lemma_fundamental_div_mod_converse_div(k, bs, q, k - q * bs);
    vstd::arithmetic::div_mod::lemma_fundamental_div_mod_converse_mod(k, bs, q, k - q * bs);
}

proof fn lemma_index_in_blocks(k: int, n: int, bs: int)
    requires
        bs > 0,
        0 <= k < n * bs,
    ensures
        0 <= k / bs < n,
        0 <= k % bs < bs,
        k == (k / bs) * bs + k % bs,
{
    vstd::arithmetic::div_mod::lemma_fundamental_div_mod(k, bs);
    let q = k / bs;
    assert(q * bs == bs * q) by (nonlinear_arith);
    assert(0 <= k % bs < bs);
    assert(q >= 0) by (nonlinear_arith)
        requires
            k >= 0,
            k == bs * q + k % bs,
            k % bs < bs,
            bs > 0,
    {
    }
    assert(q < n) by (nonlinear_arith)
        requires
            k < n * bs,
            k == bs * q + k % bs,
            k % bs >= 0,
            bs > 0,
    {
    }
}

/// Appending a block after full blocks appends its data to the stream.
proof fn lemma_stream_push(blocks: Seq<BlockView>, bs: nat, b: BlockView)
    requires
        bs > 0,
        blocks_laid_out(blocks, bs),
        blocks.len() == 0 || blocks.last().data.len() == bs,
        b.capacity == bs,
        b.data.len() <= bs,
        blocks.len() == 0 ==> b.serial >= 0,
        blocks.len() > 0 ==> b.serial == blocks[0].serial + blocks.len() * bs,
    ensures
        blocks_laid_out(blocks.push(b), bs),
        blocks_len(blocks.push(b), bs) == blocks_len(blocks, bs) + b.data.len(),
        blocks_stream(blocks.push(b), bs, blocks_len(blocks.push(b), bs))
            == blocks_stream(blocks, bs, blocks_len(blocks, bs)) + b.data,
{
    let nb = blocks.push(b);
    let n = blocks.len() as int;
    assert((n - 1) * bs + bs == n * bs) by (nonlinear_arith);
    assert(blocks_len(blocks, bs) == n * bs);
    assert forall|i: int| 0 <= i < nb.len() implies (#[trigger] nb[i]).capacity == bs && nb[i].data.len() <= bs
        && nb[i].serial == nb[0].serial + i * bs by {
        if i < n {
            assert(nb[i] == blocks[i]);
        }
    }
    let s1 = blocks_stream(nb, bs, blocks_len(nb, bs));
    let s0 = blocks_stream(blocks, bs, blocks_len(blocks, bs));
    assert forall|k: int| 0 <= k < s1.len() implies #[trigger] s1[k] == (s0 + b.data)[k] by {
        if k < n * bs {
            lemma_index_in_blocks(k, n, bs as int);
        } else {
            lemma_block_index(k, n, bs as int);
        }
    }
    assert(s1 =~= s0 + b.data);
}

/// Extending the data of the last block extends the stream.
proof fn lemma_stream_extend_last(blocks: Seq<BlockView>, bs: nat, d: Seq<u8>)
    requires
        bs > 0,
        blocks.len() > 0,
        blocks_laid_out(blocks, bs),
        blocks.last().data.len() + d.len() <= bs,
    ensures
        ({
            let nb = blocks.update(blocks.len() - 1, BlockView { data: blocks.last().data + d, ..blocks.last() });
            &&& blocks_laid_out(nb, bs)
            &&& blocks_len(nb, bs) == blocks_len(blocks, bs) + d.len()
            &&& blocks_stream(nb, bs, blocks_len(nb, bs)) == blocks_stream(blocks, bs, blocks_len(blocks, bs)) + d
        }),
{
    let n = blocks.len() as int;
    let nb = blocks.update(n - 1, BlockView { data: blocks.last().data + d, ..blocks.last() });
    let s1 = blocks_stream(nb, bs, blocks_len(nb, bs));
    let s0 = blocks_stream(blocks, bs, blocks_len(blocks, bs));
    assert forall|k: int| 0 <= k < s1.len() implies #[trigger] s1[k] == (s0 + d)[k] by {
        if k < (n - 1) * bs {
            lemma_index_in_blocks(k, n - 1, bs as int);
        } else {
            lemma_block_index(k, n - 1, bs as int);
        }
    }
    assert(s1 =~= s0 + d);
}

/// Dropping a full first block drops its bytes from the front of the stream.
proof fn lemma_stream_drop_first(blocks: Seq<BlockView>, bs: nat)
    requires
        bs > 0,
        blocks.len() > 0,
        blocks_laid_out(blocks, bs),
        blocks[0].data.len() == bs,
    ensures
        blocks_laid_out(blocks.drop_first(), bs),
        blocks_len(blocks, bs) >= bs,
        blocks_len(blocks.drop_first(), bs) == blocks_len(blocks, bs) - bs,
        blocks_stream(blocks.drop_first(), bs, blocks_len(blocks.drop_first(), bs))
            == blocks_stream(blocks, bs, blocks_len(blocks, bs)).subrange(bs as int, blocks_len(blocks, bs) as int),
{
    let nb = blocks.drop_first();
    let n = blocks.len() as int;
    assert(blocks_len(blocks, bs) >= bs) by (nonlinear_arith)
        requires
            n >= 1,
            n == 1 ==> blocks_len(blocks, bs) == bs,
            n > 1 ==> blocks_len(blocks, bs) == (n - 1) * bs + blocks.last().data.len(),
    {
    }
    if n > 1 {
        assert(blocks_len(nb, bs) == blocks_len(blocks, bs) - bs) by (nonlinear_arith)
            requires
                blocks_len(nb, bs) == (n - 2) * bs + blocks.last().data.len(),
                blocks_len(blocks, bs) == (n - 1) * bs + blocks.last().data.len(),
        {
        }
        assert forall|i: int| 0 <= i < nb.len() implies (#[trigger] nb[i]).capacity == bs && nb[i].data.len() <= bs
            && nb[i].serial == nb[0].serial + i * bs by {
            assert(nb[i] == blocks[i + 1]);
            assert(blocks[i + 1].serial == blocks[0].serial + (i + 1) * bs);
            assert(blocks[1].serial == blocks[0].serial + 1 * bs);
            assert((i + 1) * bs == i * bs + bs) by (nonlinear_arith);
        }
        assert forall|i: int| 0 <= i < nb.len() - 1 implies (#[trigger] nb[i]).data.len() == bs by {
            assert(nb[i] == blocks[i + 1]);
        }
    }
    let s1 = blocks_stream(nb, bs, blocks_len(nb, bs));
    let s0 = blocks_stream(blocks, bs, blocks_len(blocks, bs));
    assert forall|k: int| 0 <= k < s1.len() implies #[trigger] s1[k] == s0.subrange(bs as int, s0.len() as int)[k] by {
        lemma_index_in_blocks(k, n - 1, bs as int);
        let q = k / bs as int;
        assert((q + 1) * bs == q * bs + bs) by (nonlinear_arith);
        lemma_block_index(k + bs, q + 1, bs as int);
    }
    assert(s1 =~= s0.subrange(bs as int, s0.len() as int));
}


// ---------------------------------------------------------------------------
// Readers and free space
// ---------------------------------------------------------------------------

/// The first index from `i` on, below `lim`, of a block some reader holds (or `lim`, or the end).
pub open spec fn leading_from(readers: Seq<(u64, PosType)>, blocks: Seq<BlockView>, i: nat, lim: nat) -> nat
    decreases lim - i,
{
    if i >= lim || i >= blocks.len() || block_locked(readers, blocks[i as int]) {
        i
    } else {
        leading_from(readers, blocks, (i + 1) as nat, lim)
    }
}

/// The number of leading blocks, at most `lim`, that no reader holds.
pub open spec fn leading_unlocked(readers: Seq<(u64, PosType)>, blocks: Seq<BlockView>, lim: nat) -> nat {
    leading_from(readers, blocks, 0, lim)
}

/// The number of leading blocks dropped as unused: those no reader holds, beyond the minimum,
/// when the minimum is below the maximum.
pub open spec fn unused_count(v: BufferView) -> nat {
    if v.min_blocks < v.max_blocks && v.blocks.len() > v.min_blocks {
        leading_unlocked(v.readers, v.blocks, (v.blocks.len() - v.min_blocks) as nat)
    } else {
        0
    }
}

/// How many leading blocks may count as free: those beyond the minimum (at least one),
/// always keeping the last.
pub open spec fn disc_count(v: BufferView) -> nat {
    let n = v.blocks.len();
    if n > v.min_blocks {
        if n - v.min_blocks < n - 1 { (n - v.min_blocks) as nat } else { (n - 1) as nat }
    } else {
        if 1 < n - 1 { 1 } else { (n - 1) as nat }
    }
}

/// The free space of a buffer.
pub open spec fn free_space(v: BufferView) -> int {
    let n = v.blocks.len();
    let bs = v.block_size as int;
    (if n < v.max_blocks { (v.max_blocks - n) * bs } else { 0 })
        + (if n >= 2 { leading_unlocked(v.readers, v.blocks, disc_count(v)) * bs } else { 0 })
        + (if n > 0 && v.blocks.last().data.len() < v.blocks.last().capacity { v.blocks.last().capacity - v.blocks.last().data.len() } else { 0 })
}

/// The readers with `id` placed at `pos` (added when not listed).
pub open spec fn with_reader(rs: Seq<(u64, PosType)>, id: u64, pos: PosType) -> Seq<(u64, PosType)> {
    if exists|j: int| 0 <= j < rs.len() && rs[j].0 == id {
        rs.update(choose|j: int| 0 <= j < rs.len() && rs[j].0 == id, (id, pos))
    } else {
        rs.push((id, pos))
    }
}

/// The readers without `id`.
pub open spec fn without_reader(rs: Seq<(u64, PosType)>, id: u64) -> Seq<(u64, PosType)> {
    if exists|j: int| 0 <= j < rs.len() && rs[j].0 == id {
        rs.remove(choose|j: int| 0 <= j < rs.len() && rs[j].0 == id)
    } else {
        rs
    }
}

proof fn lemma_leading_bound(readers: Seq<(u64, PosType)>, blocks: Seq<BlockView>, i: nat, lim: nat)
    ensures
        leading_from(readers, blocks, i, lim) >= i,
        i <= lim ==> leading_from(readers, blocks, i, lim) <= lim,
        leading_from(readers, blocks, i, lim) <= (if i > lim { i } else { lim }),
    decreases lim - i,
{
    if !(i >= lim || i >= blocks.len() || block_locked(readers, blocks[i as int])) {
        lemma_leading_bound(readers, blocks, (i + 1) as nat, lim);
    }
}

// ---------------------------------------------------------------------------
// Resizing
// ---------------------------------------------------------------------------

/// The data of blocks `a` to `b - 1`, in order.
pub open spec fn concat_range(blocks: Seq<BlockView>, a: int, b: int) -> Seq<u8>
    decreases b - a,
{
    if a >= b {
        Seq::empty()
    } else {
        blocks[a].data + concat_range(blocks, a + 1, b)
    }
}

/// Scanning back from block `i` with `total` bytes taken: the index of the first block kept
/// within `max_size` bytes.
pub open spec fn kept_scan(blocks: Seq<BlockView>, max_size: int, i: int, total: int) -> nat
    decreases i,
{
    if i <= 0 {
        0
    } else {
        let ds = blocks[i - 1].data.len() as int;
        let room = if max_size > total { max_size - total } else { 0 };
        if ds > room {
            i as nat
        } else {
            kept_scan(blocks, max_size, i - 1, total + ds)
        }
    }
}

proof fn lemma_concat_prefix_len(blocks: Seq<BlockView>, a: int, b: int, c: int)
    requires
        a <= b <= c,
    ensures
        concat_range(blocks, a, b).len() <= concat_range(blocks, a, c).len(),
    decreases c - b,
{
    if b < c {
        lemma_concat_prefix_len(blocks, a, b, c - 1);
        lemma_concat_extend(blocks, a, c - 1);
    }
}

/// The first block of the longest run of last blocks whose data fits `max_size` bytes.
pub open spec fn kept_start(blocks: Seq<BlockView>, max_size: int) -> nat {
    kept_scan(blocks, max_size, blocks.len() as int, 0)
}

proof fn lemma_concat_extend(blocks: Seq<BlockView>, a: int, b: int)
    requires
        a <= b,
    ensures
        concat_range(blocks, a, b + 1) == concat_range(blocks, a, b) + blocks[b].data,
    decreases b - a,
{
    if a < b {
        lemma_concat_extend(blocks, a + 1, b);
        assert(concat_range(blocks, a, b + 1) =~= blocks[a].data + concat_range(blocks, a + 1, b + 1));
        assert(blocks[a].data + (concat_range(blocks, a + 1, b) + blocks[b].data)
            =~= (blocks[a].data + concat_range(blocks, a + 1, b)) + blocks[b].data);
    } else {
        assert(concat_range(blocks, a, b + 1) =~= blocks[b].data + concat_range(blocks, b + 1, b + 1));
        assert(concat_range(blocks, b + 1, b + 1) =~= Seq::<u8>::empty());
        assert(concat_range(blocks, a, b) =~= Seq::<u8>::empty());
    }
}

// ---------------------------------------------------------------------------
// The buffer state
// ---------------------------------------------------------------------------

/// The state of a stream buffer: the block queue, its limits and the reader positions.
pub struct StreamBufferInner {
    block_size: usize,
    min_block_count: usize,
    max_block_count: usize,
    queue: Vec<QueueBlock>,
    serial_pos: PosType,
    data_storage_manager: Option<Box<dyn DataStorageManager>>,
    in_memory: bool,
    reader_pos_list: Vec<(u64, PosType)>,
    next_reader_id: u64,
}

impl StreamBufferInner {
    /// The modelled state.
    pub closed spec fn view(&self) -> BufferView {
        BufferView {
            block_size: self.block_size as nat,
            min_blocks: self.min_block_count as nat,
            max_blocks: self.max_block_count as nat,
            blocks: Seq::new(self.queue@.len(), |i: int| self.queue@[i].view()),
            end: self.serial_pos as int,
            readers: self.reader_pos_list@,
            has_manager: self.data_storage_manager is Some,
            in_memory: self.in_memory,
        }
    }

    /// The blocks hold their storages and are laid out back to back up to the end position;
    /// the limits are consistent and no reader is listed twice.
    pub closed spec fn wf(&self) -> bool {
        let v = self.view();
        &&& forall|i: int| 0 <= i < self.queue@.len() ==> (#[trigger] self.queue@[i]).ok()
        &&& blocks_laid_out(v.blocks, v.block_size)
        &&& v.end == v.begin() + blocks_len(v.blocks, v.block_size)
        &&& 0 <= v.end <= i64::MAX
        &&& v.block_size * v.max_blocks <= usize::MAX
        &&& v.blocks.len() * v.block_size <= usize::MAX
        &&& v.min_blocks <= v.max_blocks
        &&& v.block_size > 0 ==> v.max_blocks > 0
        &&& forall|i: int, j: int| 0 <= i < j < v.readers.len() ==> v.readers[i].0 != v.readers[j].0
    }

    /// An empty buffer with no blocks, no limits and no readers.
    pub fn new() -> (r: Self)
        ensures
            r.wf(),
            r.view() == (BufferView { block_size: 0, min_blocks: 0, max_blocks: 0, blocks: Seq::empty(), end: 0, readers: Seq::empty(), has_manager: false, in_memory: false }),
            r.id_counter() == 0,
    {
        let r = StreamBufferInner {
            block_size: 0,
            min_block_count: 0,
            max_block_count: 0,
            queue: Vec::new(),
            serial_pos: 0,
            data_storage_manager: None,
            in_memory: false,
            reader_pos_list: Vec::new(),
            next_reader_id: 0,
        };
        assert(r.view().blocks =~= Seq::<BlockView>::empty());
        r
    }

    /// Whether block size and counts are acceptable.
    pub fn check_buffer_size(block_size: usize, min_block_count: usize, max_block_count: usize) -> (r: bool)
        ensures
            r == buffer_size_ok(block_size as int, min_block_count as int, max_block_count as int),
    {
        if block_size == 0 || max_block_count == 0 {
            return false;
        }
        if block_size > usize::MAX / max_block_count {
            proof {
                vstd::arithmetic::div_mod::lemma_fundamental_div_mod(usize::MAX as int, max_block_count as int);
                assert(block_size * max_block_count > usize::MAX) by (nonlinear_arith)
                    requires
                        block_size > usize::MAX / max_block_count,
                        max_block_count > 0,
                        usize::MAX == max_block_count * (usize::MAX / max_block_count) + usize::MAX % max_block_count,
                        usize::MAX % max_block_count < max_block_count,
                {
                }
            }
            return false;
        }
        proof {
            vstd::arithmetic::div_mod::lemma_fundamental_div_mod(usize::MAX as int, max_block_count as int);
            assert(block_size * max_block_count <= usize::MAX) by (nonlinear_arith)
                requires
                    block_size <= usize::MAX / max_block_count,
                    max_block_count > 0,
                    usize::MAX == max_block_count * (usize::MAX / max_block_count) + usize::MAX % max_block_count,
                    usize::MAX % max_block_count >= 0,
            {
            }
        }
        if min_block_count > max_block_count {
            return false;
        }
        true
    }

    /// Sets the limits and empties the queue, restarting the stream at 0; refused for unacceptable limits.
    /// Without a manager, blocks are allocated in memory.
    pub fn create(&mut self, block_size: usize, min_block_count: usize, max_block_count: usize, manager: Option<Box<dyn DataStorageManager>>) -> (r: bool)
        requires
            old(self).wf(),
        ensures
            final(self).wf(),
            r == buffer_size_ok(block_size as int, min_block_count as int, max_block_count as int),
            r ==> final(self).view() == (BufferView {
                block_size: block_size as nat,
                min_blocks: min_block_count as nat,
                max_blocks: max_block_count as nat,
                blocks: Seq::empty(),
                end: 0,
                has_manager: true,
                in_memory: manager is None,
                ..old(self).view()
            }),
            !r ==> final(self).view() == old(self).view(),
    {
        if !Self::check_buffer_size(block_size, min_block_count, max_block_count) {
            return false;
        }
        self.block_size = block_size;
        self.min_block_count = min_block_count;
        self.max_block_count = max_block_count;
        self.queue.clear();
        self.serial_pos = 0;
        self.in_memory = manager.is_none();
        let m: Box<dyn DataStorageManager> = match manager {
            Some(m) => m,
            None => Box::new(MemoryDataStorageManager),
        };
        self.data_storage_manager = Some(m);
        assert(self.view().blocks =~= Seq::<BlockView>::empty());
        true
    }

    /// Empties the queue and clears the limits; the readers stay listed.
    pub fn destroy(&mut self)
        requires
            old(self).wf(),
        ensures
            final(self).wf(),
            final(self).view() == (BufferView { block_size: 0, min_blocks: 0, max_blocks: 0, blocks: Seq::empty(), end: 0, has_manager: false, in_memory: false, ..old(self).view() }),
    {
        self.queue.clear();
        self.block_size = 0;
        self.min_block_count = 0;
        self.max_block_count = 0;
        self.serial_pos = 0;
        self.data_storage_manager = None;
        self.in_memory = false;
        assert(self.view().blocks =~= Seq::<BlockView>::empty());
    }

    /// Whether limits are set.
    pub fn is_created(&self) -> (r: bool)
        ensures
            r == (self.view().block_size > 0),
    {
        self.block_size > 0
    }

    /// Drops every block; the stream continues from its end.
    pub fn clear(&mut self)
        requires
            old(self).wf(),
        ensures
            final(self).wf(),
            final(self).view() == (BufferView { blocks: Seq::empty(), ..old(self).view() }),
    {
        self.queue.clear();
        assert(self.view().blocks =~= Seq::<BlockView>::empty());
    }

    /// Whether no block is held.
    pub fn is_empty(&self) -> (r: bool)
        ensures
            r == (self.view().blocks.len() == 0),
    {
        self.queue.len() == 0
    }

    /// Whether no more data can be taken without dropping blocks: the maximum number of
    /// blocks is held and the last is full (always, without limits).
    pub fn is_full(&self) -> (r: bool)
        requires
            self.wf(),
        ensures
            r == (self.view().max_blocks == 0 || (self.view().blocks.len() >= self.view().max_blocks
                && self.view().blocks.last().data.len() >= self.view().blocks.last().capacity)),
    {
        if self.max_block_count == 0 {
            return true;
        }
        let n = self.queue.len();
        if n < self.max_block_count {
            return false;
        }
        assert(self.queue@[n - 1].ok());
        self.queue[n - 1].is_full()
    }

    pub fn get_block_size(&self) -> (r: usize)
        ensures
            r == self.view().block_size,
    {
        self.block_size
    }

    pub fn get_min_block_count(&self) -> (r: usize)
        ensures
            r == self.view().min_blocks,
    {
        self.min_block_count
    }

    pub fn get_max_block_count(&self) -> (r: usize)
        ensures
            r == self.view().max_blocks,
    {
        self.max_block_count
    }

    /// The stream position of the first byte held.
    pub fn get_begin_pos(&self) -> (r: PosType)
        requires
            self.wf(),
        ensures
            r == self.view().begin(),
    {
        if self.queue.len() == 0 {
            self.serial_pos
        } else {
            self.queue[0].serial_pos
        }
    }

    /// The stream position after the last byte held.
    pub fn get_end_pos(&self) -> (r: PosType)
        requires
            self.wf(),
        ensures
            r == self.view().end,
    {
        let n = self.queue.len();
        if n == 0 {
            self.serial_pos
        } else {
            assert(self.queue@[n - 1].ok());
            let ghost v = self.view();
            proof {
                assert(v.blocks[n - 1].serial == v.blocks[0].serial + (n - 1) * v.block_size);
            }
            self.queue[n - 1].serial_pos + self.queue[n - 1].get_data_size() as PosType
        }
    }

    /// The positions of the first and after the last byte held; `None` when no block is held.
    pub fn get_data_range(&self) -> (r: Option<(PosType, PosType)>)
        requires
            self.wf(),
        ensures
            r == (if self.view().blocks.len() == 0 { None } else { Some((self.view().begin() as PosType, self.view().end as PosType)) }),
    {
        if self.queue.len() == 0 {
            return None;
        }
        Some((self.get_begin_pos(), self.get_end_pos()))
    }

    /// Whether some reader position keeps block `i` from being dropped.
    fn is_block_locked(&self, i: usize) -> (r: bool)
        requires
            self.wf(),
            i < self.view().blocks.len(),
        ensures
            r == block_locked(self.view().readers, self.view().blocks[i as int]),
    {
        assert(self.queue@[i as int].ok());
        let limit = self.queue[i].serial_pos as i128 + self.queue[i].get_capacity() as i128;
        let ghost b = self.view().blocks[i as int];
        let mut k: usize = 0;
        while k < self.reader_pos_list.len()
            invariant
                k <= self.reader_pos_list@.len(),
                i < self.view().blocks.len(),
                b == self.view().blocks[i as int],
                limit == b.serial + b.capacity,
                forall|j: int| 0 <= j < k ==> !locks(#[trigger] self.reader_pos_list@[j].1, b.serial, b.capacity),
            decreases self.reader_pos_list@.len() - k,
        {
            let p = self.reader_pos_list[k].1;
            if p >= 0 && (p as i128) < limit {
                assert(locks(self.view().readers[k as int].1, b.serial, b.capacity));
                return true;
            }
            k = k + 1;
        }
        false
    }

    #[verifier::rlimit(80)]
    /// Appends `data`: first into the room of the last block, then into new blocks while
    /// fewer than the maximum are held, else into the first block when no reader holds it
    /// (its data is dropped). Returns the number of bytes taken.
    pub fn push_back(&mut self, data: &[u8]) -> (r: usize)
        requires
            old(self).wf(),
            old(self).view().end + data@.len() <= i64::MAX,
        ensures
            final(self).wf(),
            r <= data@.len(),
            (data@.len() == 0 || old(self).view().block_size == 0) ==> r == 0 && final(self).view() == old(self).view(),
            final(self).view().begin() <= final(self).view().end,
            ({
                let o = old(self).view();
                let v = final(self).view();
                let all = o.stream() + data@.subrange(0, r as int);
                &&& v.block_size == o.block_size
                &&& v.min_blocks == o.min_blocks
                &&& v.max_blocks == o.max_blocks
                &&& v.readers == o.readers
                &&& v.has_manager == o.has_manager
                &&& v.in_memory == o.in_memory
                &&& v.end == o.end + r
                &&& o.begin() <= v.begin()
                &&& v.stream() == all.subrange(v.begin() - o.begin(), all.len() as int)
                &&& v.begin() > o.begin() ==> forall|j: int| 0 <= j < v.readers.len() ==> (#[trigger] v.readers[j]).1 < 0 || v.readers[j].1 >= v.begin()
                &&& v.begin() > o.begin() ==> o.stream().len() + r > o.max_blocks * o.block_size
                &&& (r < data@.len() && o.block_size > 0) ==> {
                    &&& v.blocks.len() == 0 || v.blocks.last().data.len() == v.block_size
                    &&& v.blocks.len() >= v.max_blocks ==> v.blocks.len() > 0 && block_locked(v.readers, v.blocks[0])
                }
                &&& (r < data@.len() && o.block_size > 0 && o.in_memory) ==> {
                    &&& v.blocks.len() > 0
                    &&& v.blocks.len() >= v.max_blocks
                    &&& block_locked(v.readers, v.blocks[0])
                }
            }),
    {
        let ghost o = self.view();
        if data.len() == 0 || self.block_size == 0 {
            assert(data@.subrange(0, 0) =~= Seq::<u8>::empty());
            assert(o.stream() + data@.subrange(0, 0) =~= o.stream());
            return 0;
        }
        let bs = self.block_size;
        let mut pos: usize = 0;
        let qlen = self.queue.len();
        if qlen > 0 {
            assert(self.queue@[qlen - 1].ok());
            if !self.queue[qlen - 1].is_full() {
                let ghost before = self.view();
                let ghost q0 = self.queue@;
                let mut blk = QueueBlock::empty();
                self.queue.set_and_swap(qlen - 1, &mut blk);
                let copy = blk.write(data);
                let full_now = blk.is_full();
                self.queue.set_and_swap(qlen - 1, &mut blk);
                self.serial_pos = self.serial_pos + copy as PosType;
                proof {
                    assert(self.queue@ == q0.update(qlen - 1, self.queue@[qlen - 1]));
                    assert forall|i: int| 0 <= i < self.queue@.len() implies (#[trigger] self.queue@[i]).ok() by {
                        if i != qlen - 1 {
                            assert(self.queue@[i] == q0[i]);
                        }
                    }
                    lemma_stream_extend_last(before.blocks, bs as nat, data@.subrange(0, copy as int));
                    assert(self.view().blocks =~= before.blocks.update(qlen - 1, BlockView { data: before.blocks.last().data + data@.subrange(0, copy as int), ..before.blocks.last() }));
                    let all = o.stream() + data@.subrange(0, copy as int);
                    assert(all.subrange(0, all.len() as int) =~= all);
                    assert(self.view().begin() == o.begin());
                    let v = self.view();
                    assert(blocks_laid_out(v.blocks, v.block_size));
                    assert(v.end == v.begin() + blocks_len(v.blocks, v.block_size));
                    assert(0 <= v.end <= i64::MAX);
                    assert(v.block_size * v.max_blocks <= usize::MAX);
                    assert(v.readers == o.readers);
                }
                pos = copy;
                if copy == data.len() || !full_now {
                    return copy;
                }
            }
        }
        proof {
            if pos == 0 {
                let all = o.stream() + data@.subrange(0, 0);
                assert(all =~= o.stream());
                assert(all.subrange(0, all.len() as int) =~= all);
            }
        }
        loop
            invariant_except_break
                pos < data@.len(),
            invariant
                self.wf(),
                bs == self.block_size,
                bs > 0,
                pos <= data@.len(),
                o.stream().len() == o.end - o.begin(),
                o.begin() >= 0,
                o.end + data@.len() <= i64::MAX,
                ({
                    let v = self.view();
                    let all = o.stream() + data@.subrange(0, pos as int);
                    &&& v.block_size == o.block_size
                    &&& v.min_blocks == o.min_blocks
                    &&& v.max_blocks == o.max_blocks
                    &&& v.readers == o.readers
                    &&& v.has_manager == o.has_manager
                    &&& v.in_memory == o.in_memory
                    &&& v.end == o.end + pos
                    &&& o.begin() <= v.begin()
                    &&& v.stream() == all.subrange(v.begin() - o.begin(), all.len() as int)
                    &&& v.begin() > o.begin() ==> forall|j: int| 0 <= j < v.readers.len() ==> (#[trigger] v.readers[j]).1 < 0 || v.readers[j].1 >= v.begin()
                    &&& v.begin() > o.begin() ==> o.stream().len() + pos > o.max_blocks * o.block_size
                    &&& pos < data@.len() ==> v.blocks.len() == 0 || v.blocks.last().data.len() == bs
                }),
            ensures
                self.wf(),
                pos <= data@.len(),
                ({
                    let v = self.view();
                    let all = o.stream() + data@.subrange(0, pos as int);
                    &&& v.block_size == o.block_size
                    &&& v.min_blocks == o.min_blocks
                    &&& v.max_blocks == o.max_blocks
                    &&& v.readers == o.readers
                    &&& v.has_manager == o.has_manager
                    &&& v.in_memory == o.in_memory
                    &&& v.end == o.end + pos
                    &&& o.begin() <= v.begin()
                    &&& v.stream() == all.subrange(v.begin() - o.begin(), all.len() as int)
                    &&& v.begin() > o.begin() ==> forall|j: int| 0 <= j < v.readers.len() ==> (#[trigger] v.readers[j]).1 < 0 || v.readers[j].1 >= v.begin()
                    &&& v.begin() > o.begin() ==> o.stream().len() + pos > o.max_blocks * o.block_size
                    &&& pos < data@.len() ==> v.blocks.len() == 0 || v.blocks.last().data.len() == bs
                    &&& pos < data@.len() ==> (v.blocks.len() >= v.max_blocks ==> v.blocks.len() > 0 && block_locked(v.readers, v.blocks[0]))
                    &&& (pos < data@.len() && o.in_memory) ==> v.blocks.len() >= v.max_blocks
                }),
            decreases data@.len() - pos,
        {
            let ghost before = self.view();
            let n = self.queue.len();
            let mut block = QueueBlock::empty();
            if n < self.max_block_count && self.in_memory {
                let mut st = MemoryDataStorage::new();
                if !st.allocate(bs as SizeType) {
                    break;
                }
                let storage: Box<dyn DataStorage> = Box::new(st);
                let mut o_st = Some(storage);
                core::mem::swap(&mut block.storage, &mut o_st);
            } else if n < self.max_block_count {
                match self.data_storage_manager.as_ref() {
                    Some(m) => {
                        let mut storage = m.create_data_storage();
                        if !storage.allocate(bs as SizeType) {
                            break;
                        }
                        let mut o_st = Some(storage);
                        core::mem::swap(&mut block.storage, &mut o_st);
                    },
                    None => {
                        break;
                    },
                }
            } else {
                if n == 0 || self.is_block_locked(0) {
                    break;
                }
                let ghost q0 = self.queue@;
                self.queue.set_and_swap(0, &mut block);
                let _ = self.queue.remove(0);
                block.reuse();
                proof {
                    assert(before.blocks[0].data.len() == bs);
                    lemma_stream_drop_first(before.blocks, bs as nat);
                    assert(self.queue@ =~= q0.drop_first());
                    assert(self.view().blocks =~= before.blocks.drop_first());
                    assert forall|i: int| 0 <= i < self.queue@.len() implies (#[trigger] self.queue@[i]).ok() by {
                        assert(self.queue@[i] == q0[i + 1]);
                    }
                    let mid = self.view();
                    if mid.blocks.len() > 0 {
                        assert(mid.blocks[0] == before.blocks[1]);
                        assert(before.blocks[1].serial == before.blocks[0].serial + 1 * bs);
                    }
                    assert(mid.begin() == before.begin() + bs);
                    let all = o.stream() + data@.subrange(0, pos as int);
                    assert(mid.stream() =~= all.subrange(mid.begin() - o.begin(), all.len() as int));
                    if before.begin() == o.begin() {
                        assert(before.stream().len() == blocks_len(before.blocks, before.block_size));
                        assert((n - 1) * bs + bs == n * bs) by (nonlinear_arith);
                        assert(blocks_len(before.blocks, before.block_size) == n * bs);
                        assert(n * bs >= o.max_blocks * bs) by (nonlinear_arith)
                            requires
                                n >= o.max_blocks,
                                bs > 0,
                        {
                        }
                        assert(o.stream().len() + pos == before.stream().len());
                    }
                    assert forall|j: int| 0 <= j < mid.readers.len() implies (#[trigger] mid.readers[j]).1 < 0 || mid.readers[j].1 >= mid.begin() by {
                        if !(mid.readers[j].1 < 0 || mid.readers[j].1 >= mid.begin()) {
                            assert(locks(before.readers[j].1, before.blocks[0].serial, before.blocks[0].capacity));
                        }
                    }
                }
            }
            let ghost mid = self.view();
            proof {
                let m = mid.blocks.len() as int;
                if m > 0 {
                    assert(mid.blocks.last().data.len() == bs);
                    assert((m - 1) * bs + bs == m * bs) by (nonlinear_arith);
                    assert(mid.end == mid.blocks[0].serial + m * bs);
                }
            }
            let copy = block.write(crate::utilities::sub_slice(data, pos, data.len()));
            let is_full = block.is_full();
            block.serial_pos = self.serial_pos;
            self.serial_pos = self.serial_pos + copy as PosType;
            let ghost q1 = self.queue@;
            self.queue.push(QueueBlock::empty());
            let last = self.queue.len() - 1;
            self.queue.set_and_swap(last, &mut block);
            proof {
                let nb = BlockView { serial: mid.end, capacity: bs as nat, data: data@.subrange(pos as int, pos + copy) };
                assert(data@.subrange(pos as int, data@.len() as int).subrange(0, copy as int) =~= data@.subrange(pos as int, pos + copy));
                lemma_stream_push(mid.blocks, bs as nat, nb);
                assert(self.queue@ =~= q1.push(self.queue@[last as int]));
                assert(self.view().blocks =~= mid.blocks.push(nb));
                assert forall|i: int| 0 <= i < self.queue@.len() implies (#[trigger] self.queue@[i]).ok() by {
                    if i < last {
                        assert(self.queue@[i] == q1[i]);
                    }
                }
                let all = o.stream() + data@.subrange(0, pos as int);
                let all2 = o.stream() + data@.subrange(0, pos + copy);
                assert(all2 =~= all + data@.subrange(pos as int, pos + copy));
                assert(self.view().begin() == mid.begin());
                assert(self.view().stream() =~= all2.subrange(mid.begin() - o.begin(), all2.len() as int));
                assert(self.view().readers == o.readers);
                let newlen = self.view().blocks.len() as int;
                assert(newlen <= self.max_block_count || newlen == n);
                assert(newlen * bs <= usize::MAX) by (nonlinear_arith)
                    requires
                        newlen <= self.max_block_count || newlen == n,
                        self.max_block_count * bs <= usize::MAX,
                        n * bs <= usize::MAX,
                        newlen >= 0,
                {
                }
            }
            pos = pos + copy;
            if pos >= data.len() {
                break;
            }
            if !is_full {
                break;
            }
        }
        pos
    }

    /// The index of the block holding stream position `pos`.
    fn get_block_index_by_serial_pos(&self, pos: PosType) -> (r: Option<usize>)
        requires
            self.wf(),
        ensures
            ({
                let v = self.view();
                if v.blocks.len() == 0 || pos < v.begin() || (pos - v.begin()) / (v.block_size as int) >= v.blocks.len() {
                    r is None
                } else {
                    r == Some(((pos - v.begin()) / (v.block_size as int)) as usize)
                }
            }),
    {
        if self.queue.len() == 0 {
            return None;
        }
        let first = self.queue[0].serial_pos;
        if pos < first {
            return None;
        }
        let index = ((pos - first) as u64) / (self.block_size as u64);
        if index >= self.queue.len() as u64 {
            return None;
        }
        Some(index as usize)
    }

    /// Reads from stream position `*pos` into `buf` and advances `*pos` past what was read.
    /// A position before the first byte held reads from the first byte held.
    pub fn read(&mut self, pos: &mut PosType, buf: &mut [u8]) -> (r: usize)
        requires
            old(self).wf(),
        ensures
            final(self).wf(),
            final(self).view() == old(self).view(),
            final(buf)@.len() == old(buf)@.len(),
            ({
                let v = old(self).view();
                let p = *old(pos) as int;
                let start = if p < v.begin() { v.begin() } else { p };
                if v.blocks.len() == 0 {
                    r == 0 && *final(pos) == *old(pos) && final(buf)@ == old(buf)@
                } else if start >= v.end {
                    r == 0 && *final(pos) == start && final(buf)@ == old(buf)@
                } else {
                    let n = if old(buf)@.len() < v.end - start { old(buf)@.len() as int } else { v.end - start };
                    &&& r == n
                    &&& *final(pos) == start + n
                    &&& final(buf)@ == v.stream().subrange(start - v.begin(), start - v.begin() + n)
                        + old(buf)@.subrange(n, old(buf)@.len() as int)
                }
            }),
    {
        let ghost v = self.view();
        let ghost p = *pos as int;
        let size = buf.len();
        let mut it: usize;
        let mut offset: usize;
        let nq = self.queue.len();
        if nq == 0 {
            return 0;
        }
        let ghost bs = v.block_size as int;
        let ghost big_b = v.begin();
        let ghost big_l = blocks_len(v.blocks, v.block_size) as int;
        let ghost start = if p < big_b { big_b } else { p };
        proof {
            assert(self.queue@[0].ok());
            assert((nq - 1) * bs + bs == nq * bs) by (nonlinear_arith);
            assert(big_l <= nq * bs);
        }
        match self.get_block_index_by_serial_pos(*pos) {
            None => {
                if *pos > self.queue[0].serial_pos {
                    proof {
                        if p < big_b + nq * bs {
                            lemma_index_in_blocks(p - big_b, nq as int, bs);
                        }
                    }
                    return 0;
                }
                *pos = self.queue[0].serial_pos;
                it = 0;
                offset = 0;
            },
            Some(idx) => {
                proof {
                    vstd::arithmetic::div_mod::lemma_fundamental_div_mod(p - big_b, bs);
                    assert(bs * idx == idx * bs) by (nonlinear_arith);
                    assert(self.queue@[idx as int].ok());
                    assert(v.blocks[idx as int].serial == big_b + idx * bs);
                    if idx < nq - 1 {
                        assert(idx * bs + bs <= (nq - 1) * bs) by (nonlinear_arith)
                            requires
                                idx < nq - 1,
                                bs > 0,
                        {
                        }
                    }
                }
                let off = (*pos - self.queue[idx].serial_pos) as usize;
                if self.queue[idx].get_data_size() <= off {
                    it = idx + 1;
                    offset = 0;
                } else {
                    it = idx;
                    offset = off;
                }
            },
        }
        let mut read_size: usize = 0;
        while it < self.queue.len() && read_size < size
            invariant
                self.wf(),
                self.view() == v,
                nq == self.queue@.len(),
                size == buf@.len(),
                buf@.len() == old(buf)@.len(),
                v.blocks.len() > 0,
                bs == v.block_size as int,
                bs > 0,
                big_b == v.begin(),
                big_l == blocks_len(v.blocks, v.block_size),
                big_l == (nq - 1) * bs + v.blocks.last().data.len(),
                v.end == big_b + big_l,
                start == (if p < big_b { big_b } else { p }),
                it <= nq,
                read_size <= size,
                *pos == start + read_size,
                start >= big_b,
                it < nq && read_size < size ==> start + read_size == v.blocks[it as int].serial + offset
                    && offset <= v.blocks[it as int].data.len(),
                it == nq && read_size < size ==> start + read_size >= v.end,
                start + read_size <= v.end || (read_size == 0 && it == nq),
                buf@ == (if read_size == 0 { old(buf)@ } else {
                    v.stream().subrange(start - big_b, start - big_b + read_size)
                        + old(buf)@.subrange(read_size as int, old(buf)@.len() as int) }),
            decreases nq - it,
        {
            let ghost bi = v.blocks[it as int];
            let ghost q0 = self.queue@;
            proof {
                assert(self.queue@[it as int].ok());
                assert(bi.serial == big_b + it * bs);
            }
            let mut blk = QueueBlock::empty();
            self.queue.set_and_swap(it, &mut blk);
            let copy = blk.read(offset, buf, read_size);
            self.queue.set_and_swap(it, &mut blk);
            proof {
                assert forall|i: int| 0 <= i < nq implies (#[trigger] self.queue@[i]).ok() && self.queue@[i].view() == q0[i].view() by {
                    if i != it {
                        assert(self.queue@[i] == q0[i]);
                    }
                }
                assert(self.view().blocks =~= v.blocks);
                if it < nq - 1 {
                    assert(it * bs + bs <= (nq - 1) * bs) by (nonlinear_arith)
                        requires
                            it < nq - 1,
                            bs > 0,
                    {
                    }
                }
                assert(bi.data.len() <= bs);
                if it == nq - 1 {
                    assert(it * bs + bi.data.len() == big_l);
                }
                assert forall|j: int| 0 <= j < copy implies #[trigger] v.stream()[start - big_b + read_size + j] == bi.data[offset + j] by {
                    let k = start - big_b + read_size + j;
                    assert(k == it * bs + offset + j);
                    assert(k < big_l);
                    lemma_block_index(k, it as int, bs);
                }
                let s1 = v.stream().subrange(start - big_b, start - big_b + read_size + copy) + old(buf)@.subrange(read_size + copy, old(buf)@.len() as int);
                if copy > 0 {
                    assert(offset + copy <= bi.data.len());
                    assert(start - big_b + read_size + copy <= big_l);
                    let a = start - big_b + read_size;
                    assert forall|i: int| 0 <= i < copy implies #[trigger] bi.data.subrange(offset as int, offset + copy)[i] == v.stream().subrange(a, a + copy)[i] by {
                        assert(v.stream()[start - big_b + read_size + i] == bi.data[offset + i]);
                    }
                    assert(bi.data.subrange(offset as int, offset + copy) =~= v.stream().subrange(a, a + copy));
                    assert(buf@ =~= s1);
                }
                if it + 1 < nq && copy == bi.data.len() - offset {
                    assert(v.blocks[it + 1].serial == big_b + (it + 1) * bs);
                    assert((it + 1) * bs == it * bs + bs) by (nonlinear_arith);
                }
            }
            read_size = read_size + copy;
            *pos = self.queue[it].serial_pos + offset as PosType + copy as PosType;
            offset = 0;
            it = it + 1;
        }
        proof {
            if read_size > 0 {
                assert(start < v.end);
            }
        }
        read_size
    }

    /// Drops leading blocks no reader holds, keeping at least the minimum number
    /// (nothing is dropped when the minimum is not below the maximum).
    pub fn free_unused_blocks(&mut self)
        requires
            old(self).wf(),
        ensures
            final(self).wf(),
            ({
                let v = old(self).view();
                let k = unused_count(v);
                &&& final(self).view() == (BufferView { blocks: v.blocks.subrange(k as int, v.blocks.len() as int), ..v })
                &&& final(self).view().stream() == v.stream().subrange(final(self).view().begin() - v.begin(), v.stream().len() as int)
            }),
    {
        let ghost v = self.view();
        let ghost bs = v.block_size as int;
        if !(self.min_block_count < self.max_block_count && self.queue.len() > self.min_block_count) {
            assert(v.blocks.subrange(0, v.blocks.len() as int) =~= v.blocks);
            assert(v.stream().subrange(0, v.stream().len() as int) =~= v.stream());
            return;
        }
        let ghost lim = (v.blocks.len() - v.min_blocks) as nat;
        let ghost d: nat = 0;
        proof {
            assert(v.blocks.subrange(0, v.blocks.len() as int) =~= v.blocks);
            assert(v.stream().subrange(0, v.stream().len() as int) =~= v.stream());
        }
        loop
            invariant
                self.wf(),
                d <= lim,
                lim == v.blocks.len() - v.min_blocks,
                v.min_blocks < v.max_blocks,
                v.blocks.len() > v.min_blocks,
                bs == v.block_size as int,
                self.view() == (BufferView { blocks: v.blocks.subrange(d as int, v.blocks.len() as int), ..v }),
                self.view().stream() == v.stream().subrange(self.view().begin() - v.begin(), v.stream().len() as int),
                leading_from(v.readers, v.blocks, d, lim) == leading_from(v.readers, v.blocks, 0, lim),
                self.min_block_count == v.min_blocks,
                v.end == v.begin() + v.stream().len(),
                v.begin() <= self.view().begin() <= v.end,
            ensures
                self.wf(),
                self.view() == (BufferView { blocks: v.blocks.subrange(d as int, v.blocks.len() as int), ..v }),
                self.view().stream() == v.stream().subrange(self.view().begin() - v.begin(), v.stream().len() as int),
                d == leading_from(v.readers, v.blocks, 0, lim),
            decreases lim - d,
        {
            if self.queue.len() <= self.min_block_count {
                break;
            }
            if self.is_block_locked(0) {
                break;
            }
            let ghost before = self.view();
            let ghost q0 = self.queue@;
            let mut blk = QueueBlock::empty();
            self.queue.set_and_swap(0, &mut blk);
            let _ = self.queue.remove(0);
            proof {
                assert(self.queue@ =~= q0.drop_first());
                assert forall|i: int| 0 <= i < self.queue@.len() implies (#[trigger] self.queue@[i]).ok() by {
                    assert(self.queue@[i] == q0[i + 1]);
                }
                assert(self.view().blocks =~= before.blocks.drop_first());
                assert(before.blocks.drop_first() =~= v.blocks.subrange(d + 1int, v.blocks.len() as int));
                if before.blocks.len() > 1 {
                    lemma_stream_drop_first(before.blocks, bs as nat);
                    assert(self.view().blocks[0] == before.blocks[1]);
                    assert(before.blocks[1].serial == before.blocks[0].serial + 1 * bs);
                    let a = before.begin() - v.begin();
                    let l0 = v.stream().len() as int;
                    assert(before.stream().len() == l0 - a);
                    assert(v.stream().subrange(a, l0).subrange(bs, l0 - a) =~= v.stream().subrange(a + bs, l0));
                    assert(self.view().stream() =~= v.stream().subrange(self.view().begin() - v.begin(), v.stream().len() as int));
                } else {
                    assert(self.view().stream() =~= Seq::<u8>::empty());
                    assert(self.view().begin() == before.end);
                }
                assert((self.view().blocks.len() as int) * bs <= usize::MAX) by (nonlinear_arith)
                    requires
                        self.view().blocks.len() < before.blocks.len(),
                        (before.blocks.len() as int) * bs <= usize::MAX,
                        bs >= 0,
                {
                }
                d = d + 1;
            }
        }
    }

    /// Registers (or moves) reader `id` at `pos`, then drops the blocks no reader holds any more.
    pub fn set_reader_pos(&mut self, id: u64, pos: PosType)
        requires
            old(self).wf(),
        ensures
            final(self).wf(),
            ({
                let v = BufferView { readers: with_reader(old(self).view().readers, id, pos), ..old(self).view() };
                final(self).view() == (BufferView { blocks: v.blocks.subrange(unused_count(v) as int, v.blocks.len() as int), ..v })
            }),
    {
        let ghost rs = self.reader_pos_list@;
        let mut i: usize = 0;
        let mut found = false;
        while i < self.reader_pos_list.len()
            invariant_except_break
                !found,
            invariant
                self.reader_pos_list@ == rs,
                i <= rs.len(),
                forall|j: int| 0 <= j < i ==> (#[trigger] rs[j]).0 != id,
            ensures
                self.reader_pos_list@ == rs,
                i <= rs.len(),
                found ==> i < rs.len() && rs[i as int].0 == id,
                !found ==> forall|j: int| 0 <= j < rs.len() ==> (#[trigger] rs[j]).0 != id,
            decreases rs.len() - i,
        {
            if self.reader_pos_list[i].0 == id {
                found = true;
                break;
            }
            i = i + 1;
        }
        if found {
            self.reader_pos_list.set(i, (id, pos));
            proof {
                let w = choose|j: int| 0 <= j < rs.len() && rs[j].0 == id;
                assert(w == i) by {
                    if w != i {
                        if w < i {
                            assert(rs[w].0 != rs[i as int].0);
                        } else {
                            assert(rs[i as int].0 != rs[w].0);
                        }
                    }
                }
                assert(self.reader_pos_list@ =~= with_reader(rs, id, pos));
            }
        } else {
            self.reader_pos_list.push((id, pos));
            assert(self.reader_pos_list@ =~= with_reader(rs, id, pos));
        }
        self.free_unused_blocks();
    }

    /// Unregisters reader `id`; when it was registered, drops the blocks no reader holds any more.
    /// Returns whether it was registered.
    pub fn reset_reader_pos(&mut self, id: u64) -> (r: bool)
        requires
            old(self).wf(),
        ensures
            final(self).wf(),
            r == (exists|j: int| 0 <= j < old(self).view().readers.len() && (#[trigger] old(self).view().readers[j]).0 == id),
            ({
                let v = BufferView { readers: without_reader(old(self).view().readers, id), ..old(self).view() };
                if r {
                    final(self).view() == (BufferView { blocks: v.blocks.subrange(unused_count(v) as int, v.blocks.len() as int), ..v })
                } else {
                    final(self).view() == old(self).view()
                }
            }),
    {
        let ghost rs = self.reader_pos_list@;
        let mut i: usize = 0;
        let mut found = false;
        while i < self.reader_pos_list.len()
            invariant_except_break
                !found,
            invariant
                self.reader_pos_list@ == rs,
                i <= rs.len(),
                forall|j: int| 0 <= j < i ==> (#[trigger] rs[j]).0 != id,
            ensures
                self.reader_pos_list@ == rs,
                i <= rs.len(),
                found ==> i < rs.len() && rs[i as int].0 == id,
                !found ==> forall|j: int| 0 <= j < rs.len() ==> (#[trigger] rs[j]).0 != id,
            decreases rs.len() - i,
        {
            if self.reader_pos_list[i].0 == id {
                found = true;
                break;
            }
            i = i + 1;
        }
        if !found {
            return false;
        }
        let _ = self.reader_pos_list.remove(i);
        proof {
            let w = choose|j: int| 0 <= j < rs.len() && rs[j].0 == id;
            assert(w == i) by {
                if w != i {
                    if w < i {
                        assert(rs[w].0 != rs[i as int].0);
                    } else {
                        assert(rs[i as int].0 != rs[w].0);
                    }
                }
            }
            assert(self.reader_pos_list@ =~= without_reader(rs, id));
            let nr = self.reader_pos_list@;
            assert forall|a: int, b: int| 0 <= a < b < nr.len() implies nr[a].0 != nr[b].0 by {
                let a0 = if a < i { a } else { a + 1 };
                let b0 = if b < i { b } else { b + 1 };
                assert(nr[a] == rs[a0]);
                assert(nr[b] == rs[b0]);
            }
        }
        self.free_unused_blocks();
        true
    }

    /// The identity the next reader will get.
    pub closed spec fn id_counter(&self) -> u64 {
        self.next_reader_id
    }

    /// A reader identity not handed out before (until the counter wraps): the counter's
    /// value, which then moves on by one (from `u64::MAX` back to 0).
    pub fn new_reader_id(&mut self) -> (r: u64)
        requires
            old(self).wf(),
        ensures
            final(self).wf(),
            final(self).view() == old(self).view(),
            r == old(self).id_counter(),
            final(self).id_counter() == (if r == u64::MAX { 0 } else { (r + 1) as u64 }),
    {
        let id = self.next_reader_id;
        self.next_reader_id = self.next_reader_id.wrapping_add(1);
        id
    }

    /// The space that can take data without touching blocks readers hold: blocks not yet
    /// allocated, blocks that may be dropped (leading ones no reader holds, beyond the minimum,
    /// always keeping the last), and the room in the last block.
    pub fn get_free_space(&self) -> (r: usize)
        requires
            self.wf(),
        ensures
            r == free_space(self.view()),
    {
        let ghost v = self.view();
        let ghost bs = v.block_size as int;
        let n = self.queue.len();
        let mut free: usize = 0;
        proof {
            lemma_leading_bound(v.readers, v.blocks, 0, disc_count(v));
            assert(free_space(v) <= usize::MAX) by (nonlinear_arith)
                requires
                    free_space(v) == (if n < v.max_blocks { (v.max_blocks - n) * bs } else { 0 })
                        + (if n >= 2 { leading_unlocked(v.readers, v.blocks, disc_count(v)) * bs } else { 0 })
                        + (if n > 0 && v.blocks.last().data.len() < v.blocks.last().capacity { v.blocks.last().capacity - v.blocks.last().data.len() } else { 0 }),
                    leading_unlocked(v.readers, v.blocks, disc_count(v)) <= disc_count(v),
                    n >= 2 ==> disc_count(v) <= n - 1,
                    n > 0 ==> v.blocks.last().capacity == bs,
                    bs >= 0,
                    n * bs <= usize::MAX,
                    bs * v.max_blocks <= usize::MAX,
            {
            }
        }
        if n < self.max_block_count {
            free = (self.max_block_count - n) * self.block_size;
            proof {
                assert((self.max_block_count - n) * bs <= self.max_block_count * bs) by (nonlinear_arith)
                    requires
                        n >= 0,
                        bs >= 0,
                        n < self.max_block_count,
                {
                }
            }
        }
        let ghost a = free as int;
        if n >= 2 {
            let discardable = if n > self.min_block_count {
                let x = n - self.min_block_count;
                if x < n - 1 { x } else { n - 1 }
            } else {
                1
            };
            assert(discardable == disc_count(v));
            let mut i: usize = 0;
            while i < discardable
                invariant
                    self.wf(),
                    self.view() == v,
                    n == v.blocks.len(),
                    n >= 2,
                    discardable == disc_count(v),
                    discardable <= n - 1,
                    i <= discardable,
                    bs == v.block_size as int,
                    free == a + i * bs,
                    free_space(v) <= usize::MAX,
                    leading_from(v.readers, v.blocks, i as nat, disc_count(v)) == leading_unlocked(v.readers, v.blocks, disc_count(v)),
                    a == (if n < v.max_blocks { (v.max_blocks - n) * bs } else { 0 }),
                ensures
                    free == a + leading_unlocked(v.readers, v.blocks, disc_count(v)) * bs,
                decreases discardable - i,
            {
                if self.is_block_locked(i) {
                    break;
                }
                proof {
                    lemma_leading_bound(v.readers, v.blocks, (i + 1) as nat, disc_count(v));
                    assert((i + 1) * bs == i * bs + bs) by (nonlinear_arith);
                    assert(a + (i + 1) * bs <= free_space(v)) by (nonlinear_arith)
                        requires
                            i + 1 <= leading_unlocked(v.readers, v.blocks, disc_count(v)),
                            free_space(v) >= a + leading_unlocked(v.readers, v.blocks, disc_count(v)) * bs,
                            bs >= 0,
                    {
                    }
                    assert(self.queue@[i as int].ok());
                }
                free = free + self.queue[i].get_capacity();
                i = i + 1;
            }
        }
        if n > 0 {
            assert(self.queue@[n - 1].ok());
            if !self.queue[n - 1].is_full() {
                let cap = self.queue[n - 1].get_capacity();
                let ds = self.queue[n - 1].get_data_size();
                if ds < cap {
                    free = free + (cap - ds);
                }
            }
        }
        free
    }

    /// Changes the block size and counts. With a new block size the queue is rebuilt: the
    /// last blocks whose data fits the new total size are pushed again, and the stream goes on
    /// from its end. Otherwise a new maximum may discard the first blocks beyond it.
    /// Refused for unacceptable sizes.
    pub fn set_size(&mut self, block_size: usize, min_block_count: usize, max_block_count: usize, discard: bool) -> (r: bool)
        requires
            old(self).wf(),
            block_size != old(self).view().block_size && buffer_size_ok(block_size as int, min_block_count as int, max_block_count as int)
                ==> old(self).view().end + block_size * max_block_count <= i64::MAX,
        ensures
            final(self).wf(),
            r == buffer_size_ok(block_size as int, min_block_count as int, max_block_count as int),
            !r ==> final(self).view() == old(self).view(),
            r ==> ({
                let o = old(self).view();
                let v = final(self).view();
                &&& v.block_size == block_size
                &&& v.min_blocks == min_block_count
                &&& v.readers == o.readers
                &&& v.has_manager == o.has_manager
                &&& v.in_memory == o.in_memory
                &&& if block_size != o.block_size {
                    let kept = concat_range(o.blocks, kept_start(o.blocks, block_size * max_block_count) as int, o.blocks.len() as int);
                    &&& v.max_blocks == max_block_count
                    &&& kept.len() <= block_size * max_block_count
                    &&& v.begin() == o.end
                    &&& v.stream().len() <= kept.len()
                    &&& v.stream().len() == kept.len() ==> v.stream() == kept
                } else if max_block_count != o.max_blocks {
                    &&& v.max_blocks == max_block_count
                    &&& v.end == o.end
                    &&& v.blocks == (if discard && o.blocks.len() > max_block_count {
                        o.blocks.subrange(o.blocks.len() - max_block_count, o.blocks.len() as int)
                    } else {
                        o.blocks
                    })
                } else {
                    v == (BufferView { min_blocks: min_block_count as nat, ..o })
                }
            }),
    {
        if !Self::check_buffer_size(block_size, min_block_count, max_block_count) {
            return false;
        }
        let ghost o = self.view();
        if self.block_size != block_size {
            self.block_size = block_size;
            self.min_block_count = min_block_count;
            self.max_block_count = max_block_count;
            let mut old_queue: Vec<QueueBlock> = Vec::new();
            core::mem::swap(&mut self.queue, &mut old_queue);
            let ghost ob = Seq::new(old_queue@.len(), |i: int| old_queue@[i].view());
            proof {
                assert(ob == o.blocks);
                assert(self.view().blocks =~= Seq::<BlockView>::empty());
            }
            let max_size = block_size * max_block_count;
            let len = old_queue.len();
            let mut total: usize = 0;
            let mut start: usize = 0;
            let mut i: usize = len;
            while i > 0
                invariant_except_break
                    start == 0,
                invariant
                    i <= len,
                    len == old_queue@.len(),
                    ob == o.blocks,
                    ob.len() == len,
                    forall|k: int| 0 <= k < len ==> (#[trigger] old_queue@[k]).ok() && old_queue@[k].view() == ob[k],
                    total == concat_range(ob, i as int, len as int).len(),
                    total <= max_size,
                    max_size == block_size * max_block_count,
                    kept_scan(ob, max_size as int, len as int, 0) == kept_scan(ob, max_size as int, i as int, total as int),
                ensures
                    start <= len,
                    start == kept_scan(ob, max_size as int, len as int, 0),
                    concat_range(ob, start as int, len as int).len() <= max_size,
                decreases i,
            {
                let ds = old_queue[i - 1].get_data_size();
                let room = if max_size > total { max_size - total } else { 0 };
                if ds > room {
                    start = i;
                    break;
                }
                proof {
                    assert(concat_range(ob, i - 1, len as int) =~= ob[i - 1].data + concat_range(ob, i as int, len as int));
                }
                total = total + ds;
                i = i - 1;
            }
            let mut j: usize = start;
            let ghost all_full = true;
            while j < len
                invariant
                    self.wf(),
                    start <= j <= len,
                    len == old_queue@.len(),
                    ob == o.blocks,
                    ob.len() == len,
                    forall|k: int| 0 <= k < len ==> (#[trigger] old_queue@[k]).ok() && old_queue@[k].view() == ob[k],
                    concat_range(ob, start as int, len as int).len() <= max_size,
                    max_size == block_size * max_block_count,
                    ({
                        let v = self.view();
                        &&& v.block_size == block_size
                        &&& v.min_blocks == min_block_count
                        &&& v.max_blocks == max_block_count
                        &&& v.readers == o.readers
                        &&& v.has_manager == o.has_manager
                        &&& v.in_memory == o.in_memory
                        &&& v.begin() == o.end
                        &&& v.stream().len() <= concat_range(ob, start as int, j as int).len()
                        &&& all_full ==> v.stream() == concat_range(ob, start as int, j as int)
                        &&& v.stream().len() == concat_range(ob, start as int, j as int).len() ==> all_full
                    }),
                    o.end + max_size <= i64::MAX,
                decreases len - j,
            {
                let ghost before = self.view();
                proof {
                    lemma_concat_extend(ob, start as int, j as int);
                    lemma_concat_prefix_len(ob, start as int, j as int + 1, len as int);
                }
                let ds = old_queue[j].get_data_size();
                if ds > 0 {
                    let mut tmp: Vec<u8> = vec![0u8; ds];
                    let mut blk = QueueBlock::empty();
                    let ghost q0 = old_queue@;
                    old_queue.set_and_swap(j, &mut blk);
                    let n = blk.read(0, tmp.as_mut_slice(), 0);
                    old_queue.set_and_swap(j, &mut blk);
                    proof {
                        assert forall|k: int| 0 <= k < len implies (#[trigger] old_queue@[k]).ok() && old_queue@[k].view() == ob[k] by {
                            if k != j {
                                assert(old_queue@[k] == q0[k]);
                            }
                        }
                        assert(tmp@ =~= ob[j as int].data);
                    }
                    if n > 0 {
                        let piece = crate::utilities::sub_slice(tmp.as_slice(), 0, n);
                        let pushed = self.push_back(piece);
                        proof {
                            let v = self.view();
                            assert(max_block_count * block_size == block_size * max_block_count) by (nonlinear_arith);
                            assert(before.stream().len() + pushed <= max_size);
                            assert(v.begin() == before.begin());
                            let all = before.stream() + piece@.subrange(0, pushed as int);
                            assert(all.subrange(0, all.len() as int) =~= all);
                            if pushed == n {
                                assert(piece@.subrange(0, pushed as int) =~= ob[j as int].data);
                            } else {
                                all_full = false;
                            }
                        }
                    }
                } else {
                    proof {
                        assert(ob[j as int].data =~= Seq::<u8>::empty());
                    }
                }
                j = j + 1;
            }
        } else if self.max_block_count != max_block_count {
            self.max_block_count = max_block_count;
            self.min_block_count = min_block_count;
            if discard {
                let ghost bs = o.block_size as int;
                let ghost d: int = 0;
                while self.queue.len() > max_block_count
                    invariant
                        self.wf(),
                        max_block_count > 0,
                        bs == o.block_size as int,
                        0 <= d,
                        d + self.queue@.len() == o.blocks.len(),
                        self.view().blocks == o.blocks.subrange(d, o.blocks.len() as int),
                        self.view().end == o.end,
                        self.view().readers == o.readers,
                        self.view().has_manager == o.has_manager,
                        self.view().in_memory == o.in_memory,
                        self.view().block_size == o.block_size,
                        self.view().max_blocks == max_block_count,
                        self.view().min_blocks == min_block_count,
                        o.blocks.len() > max_block_count ==> d <= o.blocks.len() - max_block_count,
                        o.blocks.len() <= max_block_count ==> d == 0,
                    decreases self.queue@.len(),
                {
                    let ghost before = self.view();
                    let ghost q0 = self.queue@;
                    let mut blk = QueueBlock::empty();
                    self.queue.set_and_swap(0, &mut blk);
                    let _ = self.queue.remove(0);
                    proof {
                        assert(before.blocks[0].data.len() == bs);
                        lemma_stream_drop_first(before.blocks, bs as nat);
                        assert(self.queue@ =~= q0.drop_first());
                        assert forall|k: int| 0 <= k < self.queue@.len() implies (#[trigger] self.queue@[k]).ok() by {
                            assert(self.queue@[k] == q0[k + 1]);
                        }
                        assert(self.view().blocks =~= before.blocks.drop_first());
                        assert(self.view().blocks[0] == before.blocks[1]);
                        assert(before.blocks[1].serial == before.blocks[0].serial + 1 * bs);
                        assert(before.blocks.drop_first() =~= o.blocks.subrange(d + 1, o.blocks.len() as int));
                        assert((self.view().blocks.len() as int) * bs <= usize::MAX) by (nonlinear_arith)
                            requires
                                self.view().blocks.len() < before.blocks.len(),
                                (before.blocks.len() as int) * bs <= usize::MAX,
                                bs >= 0,
                        {
                        }
                        d = d + 1;
                    }
                }
            } else {
                proof {
                    assert(self.view().blocks =~= o.blocks);
                }
            }
            proof {
                assert(o.blocks.subrange(0, o.blocks.len() as int) =~= o.blocks);
            }
        }
        self.min_block_count = min_block_count;
        true
    }
}

// ---------------------------------------------------------------------------
// The shared buffer and its readers
// ---------------------------------------------------------------------------

/// The lock predicate of a stream buffer: the state is well formed.
pub open spec fn buffer_state_ok() -> spec_fn(StreamBufferInner) -> bool {
    |v: StreamBufferInner| v.wf()
}

/// What a push appends is read back from where the stream ended before it:
/// when the push took `r` bytes of `data` and kept the old end position, the
/// `r` bytes held from that position on are the first `r` bytes of `data`.
pub proof fn lemma_pushed_bytes_read_back(before: StreamBufferInner, after: StreamBufferInner, data: Seq<u8>, r: int)
    requires
        before.wf(),
        after.wf(),
        0 <= r <= data.len(),
        after.view().end == before.view().end + r,
        before.view().begin() <= after.view().begin() <= before.view().end,
        after.view().stream() == (before.view().stream() + data.subrange(0, r)).subrange(
            after.view().begin() - before.view().begin(),
            before.view().stream().len() + r,
        ),
    ensures
        after.view().stream().subrange(
            before.view().end - after.view().begin(),
            before.view().end - after.view().begin() + r,
        ) == data.subrange(0, r),
{
    let o = before.view();
    let v = after.view();
    assert(o.stream().len() == o.end - o.begin());
    assert(v.stream().subrange(o.end - v.begin(), o.end - v.begin() + r) =~= data.subrange(0, r));
}

/// A stream buffer shared between a writer and readers; its state is kept under a lock.
pub struct StreamBuffer {
    inner: vstd::rwlock::RwLock<StreamBufferInner, spec_fn(StreamBufferInner) -> bool>,
}

impl StreamBuffer {
    #[verifier::type_invariant]
    spec fn inv(&self) -> bool {
        self.inner.pred() == buffer_state_ok()
    }

    /// A buffer with no blocks and no limits.
    pub fn new() -> (r: Self) {
        StreamBuffer { inner: vstd::rwlock::RwLock::new(StreamBufferInner::new(), Ghost(buffer_state_ok())) }
    }

    /// Sets the limits and empties the buffer (see `StreamBufferInner::create`).
    pub fn create(&self, block_size: usize, min_block_count: usize, max_block_count: usize, manager: Option<Box<dyn DataStorageManager>>) -> (r: bool)
        ensures
            r == buffer_size_ok(block_size as int, min_block_count as int, max_block_count as int),
    {
        proof {
            use_type_invariant(self);
        }
        let (mut inner, handle) = self.inner.acquire_write();
        let r = inner.create(block_size, min_block_count, max_block_count, manager);
        handle.release_write(inner);
        r
    }

    /// Empties the buffer and clears the limits.
    pub fn destroy(&self) {
        proof {
            use_type_invariant(self);
        }
        let (mut inner, handle) = self.inner.acquire_write();
        inner.destroy();
        handle.release_write(inner);
    }

    /// Whether limits are set.
    pub fn is_created(&self) -> (r: bool) {
        proof {
            use_type_invariant(self);
        }
        let handle = self.inner.acquire_read();
        let r = handle.borrow().is_created();
        handle.release_read();
        r
    }

    /// Drops every block.
    pub fn clear(&self) {
        proof {
            use_type_invariant(self);
        }
        let (mut inner, handle) = self.inner.acquire_write();
        inner.clear();
        handle.release_write(inner);
    }

    /// Changes the block size and counts (see `StreamBufferInner::set_size`). Also refused
    /// when the stream position would pass `i64::MAX`.
    pub fn set_size(&self, block_size: usize, min_block_count: usize, max_block_count: usize, discard: bool) -> (r: bool)
        ensures
            r ==> buffer_size_ok(block_size as int, min_block_count as int, max_block_count as int),
    {
        proof {
            use_type_invariant(self);
        }
        let (mut inner, handle) = self.inner.acquire_write();
        if block_size != inner.get_block_size() && StreamBufferInner::check_buffer_size(block_size, min_block_count, max_block_count) {
            let end = inner.get_end_pos();
            if end as i128 + (block_size * max_block_count) as i128 > i64::MAX as i128 {
                handle.release_write(inner);
                return false;
            }
        }
        let r = inner.set_size(block_size, min_block_count, max_block_count, discard);
        handle.release_write(inner);
        r
    }

    /// Whether no block is held.
    pub fn is_empty(&self) -> (r: bool) {
        proof {
            use_type_invariant(self);
        }
        let handle = self.inner.acquire_read();
        let r = handle.borrow().is_empty();
        handle.release_read();
        r
    }

    /// Whether no more data can be taken without dropping blocks.
    pub fn is_full(&self) -> (r: bool) {
        proof {
            use_type_invariant(self);
        }
        let handle = self.inner.acquire_read();
        let r = handle.borrow().is_full();
        handle.release_read();
        r
    }

    /// The space that can take data (see `StreamBufferInner::get_free_space`).
    pub fn get_free_space(&self) -> (r: usize) {
        proof {
            use_type_invariant(self);
        }
        let handle = self.inner.acquire_read();
        let r = handle.borrow().get_free_space();
        handle.release_read();
        r
    }

    /// Appends data (see `StreamBufferInner::push_back`); nothing is taken when the stream
    /// position would pass `i64::MAX`.
    pub fn push_back(&self, data: &[u8]) -> (r: usize)
        ensures
            r <= data@.len(),
            data@.len() == 0 ==> r == 0,
    {
        proof {
            use_type_invariant(self);
        }
        let (mut inner, handle) = self.inner.acquire_write();
        let end = inner.get_end_pos();
        if end as i128 + data.len() as i128 > i64::MAX as i128 {
            handle.release_write(inner);
            return 0;
        }
        let r = inner.push_back(data);
        handle.release_write(inner);
        r
    }

    pub fn get_block_size(&self) -> (r: usize) {
        proof {
            use_type_invariant(self);
        }
        let handle = self.inner.acquire_read();
        let r = handle.borrow().get_block_size();
        handle.release_read();
        r
    }

    pub fn get_min_block_count(&self) -> (r: usize) {
        proof {
            use_type_invariant(self);
        }
        let handle = self.inner.acquire_read();
        let r = handle.borrow().get_min_block_count();
        handle.release_read();
        r
    }

    pub fn get_max_block_count(&self) -> (r: usize) {
        proof {
            use_type_invariant(self);
        }
        let handle = self.inner.acquire_read();
        let r = handle.borrow().get_max_block_count();
        handle.release_read();
        r
    }

    /// The stream position of the first byte held.
    pub fn get_begin_pos(&self) -> (r: PosType)
        ensures
            r >= 0,
    {
        proof {
            use_type_invariant(self);
        }
        let handle = self.inner.acquire_read();
        let r = handle.borrow().get_begin_pos();
        handle.release_read();
        r
    }

    /// The stream position after the last byte held.
    pub fn get_end_pos(&self) -> (r: PosType)
        ensures
            r >= 0,
    {
        proof {
            use_type_invariant(self);
        }
        let handle = self.inner.acquire_read();
        let r = handle.borrow().get_end_pos();
        handle.release_read();
        r
    }

    /// The positions of the first and after the last byte held, when a block is held.
    pub fn get_data_range(&self) -> (r: Option<(PosType, PosType)>)
        ensures
            r matches Some((b, e)) ==> 0 <= b <= e,
    {
        proof {
            use_type_invariant(self);
        }
        let handle = self.inner.acquire_read();
        let r = handle.borrow().get_data_range();
        handle.release_read();
        r
    }

    fn read_at(&self, pos: &mut PosType, buf: &mut [u8]) -> (r: usize)
        ensures
            r <= old(buf)@.len(),
            *final(pos) >= *old(pos) + r,
            final(buf)@.len() == old(buf)@.len(),
    {
        proof {
            use_type_invariant(self);
        }
        let (mut inner, handle) = self.inner.acquire_write();
        let r = inner.read(pos, buf);
        handle.release_write(inner);
        r
    }

    fn set_reader_pos_pub(&self, id: u64, pos: PosType) {
        proof {
            use_type_invariant(self);
        }
        let (mut inner, handle) = self.inner.acquire_write();
        inner.set_reader_pos(id, pos);
        handle.release_write(inner);
    }

    fn reset_reader_pos_pub(&self, id: u64) -> (r: bool) {
        proof {
            use_type_invariant(self);
        }
        let (mut inner, handle) = self.inner.acquire_write();
        let r = inner.reset_reader_pos(id);
        handle.release_write(inner);
        r
    }

    fn new_reader_id(&self) -> (r: u64) {
        proof {
            use_type_invariant(self);
        }
        let (mut inner, handle) = self.inner.acquire_write();
        let r = inner.new_reader_id();
        handle.release_write(inner);
        r
    }
}

impl Default for StreamBuffer {
    fn default() -> (r: Self) {
        Self::new()
    }
}

/// A reader of a stream buffer.
pub trait Reader {
    /// Attaches to `buffer` at the first byte held; fails when already attached.
    fn open(&mut self, buffer: Arc<StreamBuffer>) -> bool;

    /// Detaches from the buffer.
    fn close(&mut self);

    /// Whether attached to a buffer.
    fn is_open(&self) -> bool;

    /// Reads into `buf`; returns the number of bytes read.
    fn read(&mut self, buf: &mut [u8]) -> usize;

    /// Moves to stream position `pos`.
    fn set_pos(&mut self, pos: PosType) -> bool;

    /// Moves to the first byte held.
    fn seek_to_begin(&mut self) -> bool;

    /// Moves past the last byte held.
    fn seek_to_end(&mut self) -> bool;

    /// Whether there is data after the position.
    fn is_data_available(&self) -> bool;
}

/// Reads a stream buffer in order, keeping the blocks it has not read from being dropped.
pub struct SequentialReader {
    buffer: Option<Arc<StreamBuffer>>,
    id: u64,
    pos: PosType,
}

impl SequentialReader {
    /// Whether attached to a buffer.
    pub closed spec fn attached(&self) -> bool {
        self.buffer is Some
    }

    /// The stream position.
    pub closed spec fn position(&self) -> PosType {
        self.pos
    }

    /// A reader attached to nothing.
    pub fn new() -> (r: Self)
        ensures
            !r.attached(),
            r.position() == POS_INVALID,
    {
        SequentialReader { buffer: None, id: 0, pos: POS_INVALID }
    }

    /// The stream position.
    pub fn get_pos(&self) -> (r: PosType)
        ensures
            r == self.position(),
    {
        self.pos
    }
}

impl Default for SequentialReader {
    fn default() -> (r: Self)
        ensures
            !r.attached(),
            r.position() == POS_INVALID,
    {
        Self::new()
    }
}

impl Reader for SequentialReader {
    fn open(&mut self, buffer: Arc<StreamBuffer>) -> (r: bool)
        ensures
            r == !old(self).attached(),
            final(self).attached(),
            !r ==> final(self).position() == old(self).position(),
            r ==> final(self).position() >= 0,
    {
        if self.buffer.is_some() {
            return false;
        }
        let id = buffer.new_reader_id();
        let begin = buffer.get_begin_pos();
        buffer.set_reader_pos_pub(id, begin);
        self.id = id;
        self.pos = begin;
        self.buffer = Some(buffer);
        true
    }

    fn close(&mut self)
        ensures
            !final(self).attached(),
            final(self).position() == POS_INVALID,
    {
        let mut taken: Option<Arc<StreamBuffer>> = None;
        core::mem::swap(&mut self.buffer, &mut taken);
        match taken {
            Some(buf) => {
                buf.reset_reader_pos_pub(self.id);
            },
            None => {},
        }
        self.pos = POS_INVALID;
    }

    fn is_open(&self) -> (r: bool)
        ensures
            r == self.attached(),
    {
        self.buffer.is_some()
    }

    /// Reads from the position (or the first byte held, if that is later) and advances past what was read.
    fn read(&mut self, buf: &mut [u8]) -> (r: usize)
        ensures
            final(self).attached() == old(self).attached(),
            r <= old(buf)@.len(),
            final(buf)@.len() == old(buf)@.len(),
            !old(self).attached() || old(buf)@.len() == 0 ==> r == 0 && final(self).position() == old(self).position(),
            final(self).position() >= old(self).position() + r,
    {
        if buf.len() == 0 {
            return 0;
        }
        match &self.buffer {
            Some(buffer) => {
                let old_pos = self.pos;
                let mut pos = self.pos;
                let n = buffer.read_at(&mut pos, buf);
                if pos != old_pos {
                    buffer.set_reader_pos_pub(self.id, pos);
                }
                self.pos = pos;
                n
            },
            None => 0,
        }
    }

    /// Moves to `pos`; refused when detached or for a negative position.
    fn set_pos(&mut self, pos: PosType) -> (r: bool)
        ensures
            final(self).attached() == old(self).attached(),
            r == (old(self).attached() && pos >= 0),
            final(self).position() == (if r { pos } else { old(self).position() }),
    {
        if self.buffer.is_none() || pos < 0 {
            return false;
        }
        if pos != self.pos {
            self.pos = pos;
            match &self.buffer {
                Some(buffer) => {
                    buffer.set_reader_pos_pub(self.id, pos);
                },
                None => {},
            }
        }
        true
    }

    fn seek_to_begin(&mut self) -> (r: bool)
        ensures
            final(self).attached() == old(self).attached(),
            r == old(self).attached(),
            r ==> final(self).position() >= 0,
    {
        match &self.buffer {
            Some(buffer) => {
                let pos = buffer.get_begin_pos();
                if pos != self.pos {
                    buffer.set_reader_pos_pub(self.id, pos);
                }
                self.pos = pos;
                true
            },
            None => false,
        }
    }

    fn seek_to_end(&mut self) -> (r: bool)
        ensures
            final(self).attached() == old(self).attached(),
            r == old(self).attached(),
            r ==> final(self).position() >= 0,
    {
        match &self.buffer {
            Some(buffer) => {
                let pos = buffer.get_end_pos();
                if pos != self.pos {
                    buffer.set_reader_pos_pub(self.id, pos);
                }
                self.pos = pos;
                true
            },
            None => false,
        }
    }

    /// Whether the buffer holds data after the position (any data, for `POS_BEGIN`).
    fn is_data_available(&self) -> (r: bool)
        ensures
            !self.attached() || self.position() == POS_INVALID ==> !r,
    {
        if self.pos == POS_INVALID {
            return false;
        }
        match &self.buffer {
            Some(buffer) => {
                match buffer.get_data_range() {
                    None => false,
                    Some((begin, end)) => {
                        if self.pos == POS_BEGIN {
                            end > begin
                        } else {
                            end > self.pos
                        }
                    },
                }
            },
            None => false,
        }
    }
}

} // verus!
