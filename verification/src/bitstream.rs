//! Most-significant-bit-first bit reader with Exp-Golomb decoding.
use vstd::prelude::*;
use vstd::arithmetic::power2::{pow2, lemma2_to64, lemma_pow2_strictly_increases, lemma_pow2_unfold, lemma_pow2_adds};

verus! {

/// Bit `i` of `s`, counting from the most significant bit of the first byte.
pub open spec fn bit_at(s: Seq<u8>, i: int) -> u32 {
    ((s[i / 8] >> ((7 - i % 8) as u8)) & 1u8) as u32
}

/// The `n` bits of `s` starting at bit `start`, read as an unsigned number.
pub open spec fn bits_value(s: Seq<u8>, start: int, n: nat) -> int
    decreases n,
{
    if n == 0 {
        0
    } else {
        bits_value(s, start, (n - 1) as nat) * 2 + bit_at(s, start + n - 1) as int
    }
}

/// The first bit position `i` with `from <= i < end` whose bit is set, if any.
pub open spec fn first_one(s: Seq<u8>, from: int, end: int) -> Option<int>
    decreases end - from,
{
    if from >= end {
        None
    } else if bit_at(s, from) == 1 {
        Some(from)
    } else {
        first_one(s, from + 1, end)
    }
}

/// Reads bits from a byte slice, most significant bit first.
pub struct BitstreamReader<'a> {
    bits: &'a [u8],
    bit_size: usize,
    bit_pos: usize,
    is_overrun: bool,
}

/// How an Exp-Golomb symbol at bit `pos` of `s` (of `size` bits) reads:
/// `None` when it runs past the end, else `(zeros, info)` where `zeros` is the
/// number of leading zero bits and `info` the following `zeros` bits.
pub open spec fn vlc_symbol(s: Seq<u8>, pos: int, size: int) -> Option<(nat, int)> {
    match first_one(s, pos, size) {
        None => None,
        Some(one) => {
            let zeros = one - pos;
            if size - pos < 2 * zeros + 1 {
                None
            } else {
                Some((zeros as nat, bits_value(s, one + 1, zeros as nat)))
            }
        },
    }
}

impl<'a> BitstreamReader<'a> {
    /// The bytes being read.
    pub closed spec fn data(&self) -> Seq<u8> {
        self.bits@
    }

    /// The current bit position.
    pub closed spec fn pos(&self) -> int {
        self.bit_pos as int
    }

    /// Total number of bits.
    pub closed spec fn size(&self) -> int {
        self.bit_size as int
    }

    /// Whether a read has run past the end.
    pub closed spec fn overrun(&self) -> bool {
        self.is_overrun
    }

    /// The reader's internal consistency.
    pub closed spec fn wf(&self) -> bool {
        &&& self.bit_size == self.bits@.len() * 8
        &&& self.bit_pos <= self.bit_size
    }

    /// A well-formed reader has eight bits per byte of its data, and its
    /// position lies within them.
    pub proof fn lemma_reader_bounds(&self)
        requires
            self.wf(),
        ensures
            self.size() == self.data().len() * 8,
            0 <= self.pos() <= self.size(),
    {
    }

    /// Creates a reader positioned at the first bit of `bits`.
    pub fn new(bits: &'a [u8]) -> (r: Self)
        requires
            bits@.len() * 8 <= usize::MAX,
        ensures
            r.wf(),
            r.data() == bits@,
            r.size() == bits@.len() * 8,
            r.pos() == 0,
            !r.overrun(),
    {
        BitstreamReader { bit_size: bits.len() * 8, bits, bit_pos: 0, is_overrun: false }
    }

    /// The current bit position.
    pub fn get_pos(&self) -> (r: usize)
        ensures
            r == self.pos(),
    {
        self.bit_pos
    }

    /// Whether a read has run past the end of the data.
    pub fn is_overrun(&self) -> (r: bool)
        ensures
            r == self.overrun(),
    {
        self.is_overrun
    }

    fn read_bit(&self, i: usize) -> (b: u32)
        requires
            self.wf(),
            i < self.bit_size,
        ensures
            b == bit_at(self.data(), i as int),
            b <= 1,
    {
        let byte = self.bits[i / 8];
        let sh = (7 - i % 8) as u8;
        proof {
            lemma_bit_at_is_bit(self.bits@, i as int);
        }
        ((byte >> sh) & 1u8) as u32
    }

    /// Reads `bits` bits as an unsigned number (only the low 32 bits are kept).
    /// When fewer than `bits` bits remain, moves to the end, marks the overrun and returns 0.
    pub fn get_bits(&mut self, bits: usize) -> (r: u32)
        requires
            old(self).wf(),
        ensures
            final(self).wf(),
            final(self).data() == old(self).data(),
            final(self).size() == old(self).size(),
            if old(self).size() - old(self).pos() < bits {
                &&& r == 0
                &&& final(self).pos() == old(self).size()
                &&& final(self).overrun()
            } else {
                &&& r as int == bits_value(old(self).data(), old(self).pos(), bits as nat) % 0x1_0000_0000
                &&& bits <= 32 ==> r as int == bits_value(old(self).data(), old(self).pos(), bits as nat)
                &&& final(self).pos() == old(self).pos() + bits
                &&& final(self).overrun() == old(self).overrun()
            },
    {
        if self.bit_size - self.bit_pos < bits {
            self.mark_overrun();
            return 0;
        }
        let start = self.bit_pos;
        let mut value: u32 = 0;
        let mut k: usize = 0;
        while k < bits
            invariant
                self.wf(),
                start == self.bit_pos,
                self.bit_size - start >= bits,
                k <= bits,
                value as int == bits_value(self.data(), start as int, k as nat) % 0x1_0000_0000,
            decreases bits - k,
        {
            let b = self.read_bit(start + k);
            proof {
                lemma_bits_value_nonneg(self.data(), start as int, k as nat);
                lemma_shift_in_bit(bits_value(self.data(), start as int, k as nat), value as int, b as int);
            }
            value = (value % 0x8000_0000) * 2 + b;
            k = k + 1;
        }
        self.bit_pos = start + bits;
        proof {
            if bits <= 32 {
                lemma_bits_value_bound(self.data(), start as int, bits as nat);
                lemma_pow2_increases(bits as nat, 32);
                lemma2_to64();
            }
        }
        value
    }

    /// Reads one bit as a flag.
    pub fn get_flag(&mut self) -> (r: bool)
        requires
            old(self).wf(),
        ensures
            final(self).wf(),
            final(self).data() == old(self).data(),
            final(self).size() == old(self).size(),
            if old(self).pos() < old(self).size() {
                &&& r == (bit_at(old(self).data(), old(self).pos()) == 1)
                &&& final(self).pos() == old(self).pos() + 1
                &&& final(self).overrun() == old(self).overrun()
            } else {
                &&& !r
                &&& final(self).pos() == old(self).size()
                &&& final(self).overrun()
            },
    {
        let v = self.get_bits(1);
        proof {
            reveal_with_fuel(bits_value, 2);
            lemma_bit_at_is_bit(old(self).data(), old(self).pos());
        }
        v != 0
    }

    /// Reads an unsigned Exp-Golomb number `ue(v)`, or `None` on overrun.
    pub fn get_ue_v(&mut self) -> (r: Option<u32>)
        requires
            old(self).wf(),
            vlc_symbol(old(self).data(), old(self).pos(), old(self).size()) matches Some((z, _)) ==> z < 32,
        ensures
            final(self).wf(),
            final(self).data() == old(self).data(),
            final(self).size() == old(self).size(),
            match vlc_symbol(old(self).data(), old(self).pos(), old(self).size()) {
                None => r is None && final(self).pos() == old(self).size() && final(self).overrun(),
                Some((z, info)) => {
                    &&& r == Some((pow2(z) + info - 1) as u32)
                    &&& pow2(z) + info - 1 <= u32::MAX
                    &&& final(self).pos() == old(self).pos() + 2 * z + 1
                    &&& final(self).overrun() == old(self).overrun()
                },
            },
    {
        let ghost sym = vlc_symbol(old(self).data(), old(self).pos(), old(self).size());
        match self.get_vlc_symbol() {
            None => None,
            Some((length, info)) => {
                let z = length / 2;
                proof {
                    assert(z == sym.unwrap().0);
                    lemma_pow2_increases(z as nat, 31);
                    lemma2_to64();
                    assert(info as int == sym.unwrap().1);
                    assert(pow2(z as nat) <= 0x8000_0000);
                }
                let p = pow2_u32(z);
                assert(p as int + info as int <= 0xFFFF_FFFF);
                Some(p + info - 1)
            },
        }
    }

    /// Reads a signed Exp-Golomb number `se(v)`, or `None` on overrun.
    pub fn get_se_v(&mut self) -> (r: Option<i32>)
        requires
            old(self).wf(),
            vlc_symbol(old(self).data(), old(self).pos(), old(self).size()) matches Some((z, _)) ==> z < 32,
        ensures
            final(self).wf(),
            final(self).data() == old(self).data(),
            final(self).size() == old(self).size(),
            match vlc_symbol(old(self).data(), old(self).pos(), old(self).size()) {
                None => r is None && final(self).pos() == old(self).size() && final(self).overrun(),
                Some((z, info)) => {
                    let k = pow2(z) + info - 1;
                    &&& r == Some((if k % 2 == 1 { (k + 1) / 2 } else { -((k + 1) / 2) }) as i32)
                    &&& final(self).pos() == old(self).pos() + 2 * z + 1
                    &&& final(self).overrun() == old(self).overrun()
                },
            },
    {
        let ghost sym = vlc_symbol(old(self).data(), old(self).pos(), old(self).size());
        match self.get_vlc_symbol() {
            None => None,
            Some((length, info)) => {
                let z = length / 2;
                proof {
                    assert(z == sym.unwrap().0);
                    lemma_pow2_increases(z as nat, 31);
                    lemma2_to64();
                    assert(info as int == sym.unwrap().1);
                    assert(pow2(z as nat) <= 0x8000_0000);
                }
                let p = pow2_u32(z);
                assert(p as int + info as int <= 0xFFFF_FFFF);
                let n = p + info - 1;
                let value = ((n / 2) + (n % 2)) as i32;
                if n % 2 != 0 {
                    Some(value)
                } else {
                    Some(-value)
                }
            },
        }
    }

    /// Skips `bits` bits. When fewer remain, moves to the end, marks the overrun and returns `false`.
    pub fn skip(&mut self, bits: usize) -> (r: bool)
        requires
            old(self).wf(),
        ensures
            final(self).wf(),
            final(self).data() == old(self).data(),
            final(self).size() == old(self).size(),
            r == (old(self).size() - old(self).pos() >= bits),
            r ==> final(self).pos() == old(self).pos() + bits && final(self).overrun() == old(self).overrun(),
            !r ==> final(self).pos() == old(self).size() && final(self).overrun(),
    {
        if self.bit_size - self.bit_pos < bits {
            self.mark_overrun();
            return false;
        }
        self.bit_pos = self.bit_pos + bits;
        true
    }

    fn get_vlc_symbol(&mut self) -> (r: Option<(u32, u32)>)
        requires
            old(self).wf(),
            vlc_symbol(old(self).data(), old(self).pos(), old(self).size()) matches Some((z, _)) ==> z < 32,
        ensures
            final(self).wf(),
            final(self).data() == old(self).data(),
            final(self).size() == old(self).size(),
            match vlc_symbol(old(self).data(), old(self).pos(), old(self).size()) {
                None => r is None && final(self).pos() == old(self).size() && final(self).overrun(),
                Some((z, info)) => {
                    &&& r == Some(((2 * z + 1) as u32, info as u32))
                    &&& z < 32
                    &&& 0 <= info < pow2(z)
                    &&& final(self).pos() == old(self).pos() + 2 * z + 1
                    &&& final(self).overrun() == old(self).overrun()
                },
            },
    {
        let start = self.bit_pos;
        let size = self.bit_size;
        let mut i = start;
        while i < size && self.read_bit(i) == 0
            invariant
                self.wf(),
                start == self.bit_pos,
                size == self.bit_size,
                start <= i <= size,
                first_one(self.data(), start as int, size as int) == first_one(self.data(), i as int, size as int),
            decreases size - i,
        {
            i = i + 1;
        }
        if i == size {
            self.mark_overrun();
            return None;
        }
        let zeros = i - start;
        if (size - start - 1) / 2 < zeros {
            self.mark_overrun();
            return None;
        }
        let mut info: u32 = 0;
        let mut k: usize = 0;
        proof {
            lemma2_to64();
            lemma_vlc_zeros(self.data(), start as int, i as int, size as int);
        }
        while k < zeros
            invariant
                self.wf(),
                size == self.bit_size,
                start == self.bit_pos,
                i == start + zeros,
                i < size,
                size - start >= 2 * zeros + 1,
                zeros < 32,
                k <= zeros,
                info as int == bits_value(self.data(), i + 1, k as nat),
                (info as int) < pow2(k as nat),
            decreases zeros - k,
        {
            let b = self.read_bit(i + 1 + k);
            proof {
                lemma_pow2_adds(k as nat, 1);
                lemma_pow2_strictly_increases((k + 1) as nat, 32);
                lemma2_to64();
                lemma_pow2_unfold((k + 1) as nat);
            }
            info = info * 2 + b;
            k = k + 1;
        }
        proof {
            lemma_bits_value_nonneg(self.data(), i + 1, zeros as nat);
        }
        self.bit_pos = start + 2 * zeros + 1;
        Some(((2 * zeros + 1) as u32, info))
    }

    fn mark_overrun(&mut self)
        requires
            old(self).wf(),
        ensures
            final(self).wf(),
            final(self).data() == old(self).data(),
            final(self).size() == old(self).size(),
            final(self).pos() == old(self).size(),
            final(self).overrun(),
    {
        self.bit_pos = self.bit_size;
        self.is_overrun = true;
    }
}

/// Every bit read is 0 or 1.
pub proof fn lemma_bit_at_is_bit(s: Seq<u8>, i: int)
    ensures
        bit_at(s, i) <= 1,
{
    let b = s[i / 8];
    let k = (7 - i % 8) as u8;
    assert(((b >> k) & 1u8) <= 1u8) by (bit_vector);
}

proof fn lemma_pow2_increases(a: nat, b: nat)
    requires
        a <= b,
    ensures
        pow2(a) <= pow2(b),
{
    if a < b {
        lemma_pow2_strictly_increases(a, b);
    }
}

proof fn lemma_shift_in_bit(v: int, value: int, b: int)
    requires
        v >= 0,
        0 <= b <= 1,
        value == v % 0x1_0000_0000,
    ensures
        (value % 0x8000_0000) * 2 + b == (v * 2 + b) % 0x1_0000_0000,
{
    vstd::arithmetic::div_mod::lemma_mod_mod(v, 0x8000_0000, 2);
    vstd::arithmetic::div_mod::lemma_mul_mod_noop_left(v, 2, 0x1_0000_0000);
    vstd::arithmetic::div_mod::lemma_fundamental_div_mod(v, 0x8000_0000);
    vstd::arithmetic::div_mod::lemma_fundamental_div_mod(v, 0x1_0000_0000);
    assert(v % 0x1_0000_0000 % 0x8000_0000 == v % 0x8000_0000) by {
        vstd::arithmetic::div_mod::lemma_mod_mod(v, 0x8000_0000, 2);
    }
    assert((v % 0x8000_0000) * 2 + b < 0x1_0000_0000);
    assert((v * 2 + b) % 0x1_0000_0000 == (v % 0x8000_0000) * 2 + b) by {
        let q = v / 0x8000_0000;
        assert(v * 2 + b == q * 0x1_0000_0000 + ((v % 0x8000_0000) * 2 + b));
        vstd::arithmetic::div_mod::lemma_mod_multiples_vanish(q, (v % 0x8000_0000) * 2 + b, 0x1_0000_0000);
        vstd::arithmetic::div_mod::lemma_small_mod(((v % 0x8000_0000) * 2 + b) as nat, 0x1_0000_0000);
    }
}

proof fn lemma_vlc_zeros(s: Seq<u8>, start: int, i: int, size: int)
    requires
        start <= i < size,
        first_one(s, start, size) == first_one(s, i, size),
        bit_at(s, i) != 0,
    ensures
        first_one(s, start, size) == Some(i),
{
    lemma_bit_at_is_bit(s, i);
}

/// `n` bits read as a number lie below 2 to the `n`.
pub proof fn lemma_bits_value_bound(s: Seq<u8>, start: int, n: nat)
    ensures
        0 <= bits_value(s, start, n) < pow2(n),
    decreases n,
{
    if n == 0 {
        lemma2_to64();
    } else {
        lemma_bits_value_bound(s, start, (n - 1) as nat);
        lemma_bit_at_is_bit(s, start + n - 1);
        lemma_pow2_unfold(n);
    }
}

proof fn lemma_bits_value_nonneg(s: Seq<u8>, start: int, n: nat)
    ensures
        bits_value(s, start, n) >= 0,
    decreases n,
{
    if n > 0 {
        lemma_bits_value_nonneg(s, start, (n - 1) as nat);
    }
}

fn pow2_u32(z: u32) -> (r: u32)
    requires
        z < 32,
    ensures
        r as int == pow2(z as nat),
{
    let mut r: u32 = 1;
    let mut k: u32 = 0;
    proof {
        lemma2_to64();
    }
    while k < z
        invariant
            k <= z < 32,
            r as int == pow2(k as nat),
        decreases z - k,
    {
        proof {
            lemma_pow2_unfold((k + 1) as nat);
            lemma_pow2_strictly_increases((k + 1) as nat, 32);
            lemma2_to64();
        }
        r = r * 2;
        k = k + 1;
    }
    r
}

} // verus!
