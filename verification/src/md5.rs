//! The MD5 message digest (RFC 1321).
use vstd::prelude::*;
use crate::utilities::{byte_of, rotl32, rotate_left32};

verus! {

// ---------------------------------------------------------------------------
// Mathematical model
// ---------------------------------------------------------------------------

/// Addition modulo 2^32.
pub open spec fn add32(x: u32, y: u32) -> u32 {
    vstd::wrapping::u32_specs::wrapping_add(x, y)
}

/// The value of four bytes of `b` starting at `i`, least significant first.
pub open spec fn le32(b: Seq<u8>, i: int) -> u32 {
    (b[i] as int + b[i + 1] as int * 0x100 + b[i + 2] as int * 0x10000 + b[i + 3] as int * 0x1000000) as u32
}

/// A 64-byte block read as sixteen little-endian words.
pub open spec fn block_words(block: Seq<u8>) -> Seq<u32> {
    Seq::new(16, |j: int| le32(block, 4 * j))
}

/// The additive constants of the 64 steps.
pub open spec fn md5_k(i: int) -> u32 {
    seq![
        0xD76AA478u32, 0xE8C7B756, 0x242070DB, 0xC1BDCEEE, 0xF57C0FAF, 0x4787C62A, 0xA8304613, 0xFD469501,
        0x698098D8, 0x8B44F7AF, 0xFFFF5BB1, 0x895CD7BE, 0x6B901122, 0xFD987193, 0xA679438E, 0x49B40821,
        0xF61E2562, 0xC040B340, 0x265E5A51, 0xE9B6C7AA, 0xD62F105D, 0x02441453, 0xD8A1E681, 0xE7D3FBC8,
        0x21E1CDE6, 0xC33707D6, 0xF4D50D87, 0x455A14ED, 0xA9E3E905, 0xFCEFA3F8, 0x676F02D9, 0x8D2A4C8A,
        0xFFFA3942, 0x8771F681, 0x6D9D6122, 0xFDE5380C, 0xA4BEEA44, 0x4BDECFA9, 0xF6BB4B60, 0xBEBFBC70,
        0x289B7EC6, 0xEAA127FA, 0xD4EF3085, 0x04881D05, 0xD9D4D039, 0xE6DB99E5, 0x1FA27CF8, 0xC4AC5665,
        0xF4292244, 0x432AFF97, 0xAB9423A7, 0xFC93A039, 0x655B59C3, 0x8F0CCC92, 0xFFEFF47D, 0x85845DD1,
        0x6FA87E4F, 0xFE2CE6E0, 0xA3014314, 0x4E0811A1, 0xF7537E82, 0xBD3AF235, 0x2AD7D2BB, 0xEB86D391,
    ][i]
}

/// The rotation amount of step `i`.
pub open spec fn md5_s(i: int) -> u32 {
    let r = i / 16;
    let j = i % 4;
    if r == 0 {
        seq![7u32, 12, 17, 22][j]
    } else if r == 1 {
        seq![5u32, 9, 14, 20][j]
    } else if r == 2 {
        seq![4u32, 11, 16, 23][j]
    } else {
        seq![6u32, 10, 15, 21][j]
    }
}

/// The message word used by step `i`.
pub open spec fn md5_g(i: int) -> int {
    if i < 16 {
        i
    } else if i < 32 {
        (5 * i + 1) % 16
    } else if i < 48 {
        (3 * i + 5) % 16
    } else {
        (7 * i) % 16
    }
}

/// The nonlinear function of step `i` (F, G, H and I of RFC 1321).
pub open spec fn md5_f(i: int, x: u32, y: u32, z: u32) -> u32 {
    if i < 16 {
        z ^ (x & (y ^ z))
    } else if i < 32 {
        y ^ (z & (x ^ y))
    } else if i < 48 {
        x ^ y ^ z
    } else {
        y ^ (x | !z)
    }
}

/// One step on the working registers `(a, b, c, d)`.
pub open spec fn md5_step(st: (u32, u32, u32, u32), w: Seq<u32>, i: int) -> (u32, u32, u32, u32) {
    let (a, b, c, d) = st;
    let t = add32(add32(a, md5_f(i, b, c, d)), add32(w[md5_g(i)], md5_k(i)));
    (d, add32(b, rotl32(t, md5_s(i))), b, c)
}

/// The working registers after the first `n` steps.
pub open spec fn md5_rounds(st: (u32, u32, u32, u32), w: Seq<u32>, n: nat) -> (u32, u32, u32, u32)
    decreases n,
{
    if n == 0 {
        st
    } else {
        md5_step(md5_rounds(st, w, (n - 1) as nat), w, n - 1)
    }
}

/// The chaining state after compressing the block of words `w`.
pub open spec fn md5_compress(h: Seq<u32>, w: Seq<u32>) -> Seq<u32> {
    let (a, b, c, d) = md5_rounds((h[0], h[1], h[2], h[3]), w, 64);
    seq![add32(h[0], a), add32(h[1], b), add32(h[2], c), add32(h[3], d)]
}

/// The initial chaining state.
pub open spec fn md5_init() -> Seq<u32> {
    seq![0x67452301u32, 0xEFCDAB89, 0x98BADCFE, 0x10325476]
}

/// The length of a padded message of `n` bytes: the next multiple of 64 that leaves room
/// for the marker byte and the eight length bytes.
pub open spec fn md5_padded_len(n: nat) -> nat {
    if n % 64 < 56 {
        (n - n % 64 + 64) as nat
    } else {
        (n - n % 64 + 128) as nat
    }
}

/// The padded message: the data, a 0x80 byte, zeros, and the bit length modulo 2^64
/// as eight little-endian bytes.
pub open spec fn md5_message(data: Seq<u8>) -> Seq<u8> {
    let n = data.len();
    let total = md5_padded_len(n);
    let bits: int = (n as int * 8) % 0x1_0000_0000_0000_0000;
    Seq::new(total, |i: int|
        if i < n {
            data[i]
        } else if i == n {
            0x80u8
        } else if i < total - 8 {
            0u8
        } else {
            byte_of(bits, (i - (total - 8)) as nat) as u8
        })
}

/// The chaining state after the first `k` blocks of `msg`.
pub open spec fn md5_blocks(msg: Seq<u8>, k: nat) -> Seq<u32>
    decreases k,
{
    if k == 0 {
        md5_init()
    } else {
        md5_compress(md5_blocks(msg, (k - 1) as nat), block_words(msg.subrange(64 * (k - 1), 64 * k as int)))
    }
}

/// The MD5 digest of `data`: the final chaining state as sixteen little-endian bytes.
pub open spec fn md5_digest(data: Seq<u8>) -> Seq<u8> {
    let msg = md5_message(data);
    let h = md5_blocks(msg, msg.len() / 64);
    Seq::new(16, |i: int| byte_of(h[i / 4] as int, (i % 4) as nat) as u8)
}

// ---------------------------------------------------------------------------
// The digest value
// ---------------------------------------------------------------------------

/// An MD5 digest.
#[derive(Clone, Copy, PartialEq, Eq, Debug, Default)]
pub struct Md5Value(pub [u8; 16]);

impl Md5Value {
    /// The digest bytes.
    pub fn as_bytes(&self) -> (r: &[u8; 16])
        ensures
            r@ == self.0@,
    {
        &self.0
    }

    /// The digest as four little-endian words.
    pub fn as_u32s(&self) -> (r: [u32; 4])
        ensures
            forall|j: int| 0 <= j < 4 ==> #[trigger] r@[j] == le32(self.0@, 4 * j),
    {
        let b = &self.0;
        [
            le32_at(b, 0),
            le32_at(b, 4),
            le32_at(b, 8),
            le32_at(b, 12),
        ]
    }
}

fn le32_at(b: &[u8], i: usize) -> (r: u32)
    requires
        i + 4 <= b@.len(),
    ensures
        r == le32(b@, i as int),
{
    b[i] as u32 + b[i + 1] as u32 * 0x100 + b[i + 2] as u32 * 0x10000 + b[i + 3] as u32 * 0x1000000
}

// ---------------------------------------------------------------------------
// Computation
// ---------------------------------------------------------------------------

fn md5_k_at(i: usize) -> (r: u32)
    requires
        i < 64,
    ensures
        r == md5_k(i as int),
{
    let k: [u32; 64] = [
        0xD76AA478u32, 0xE8C7B756, 0x242070DB, 0xC1BDCEEE, 0xF57C0FAF, 0x4787C62A, 0xA8304613, 0xFD469501,
        0x698098D8, 0x8B44F7AF, 0xFFFF5BB1, 0x895CD7BE, 0x6B901122, 0xFD987193, 0xA679438E, 0x49B40821,
        0xF61E2562, 0xC040B340, 0x265E5A51, 0xE9B6C7AA, 0xD62F105D, 0x02441453, 0xD8A1E681, 0xE7D3FBC8,
        0x21E1CDE6, 0xC33707D6, 0xF4D50D87, 0x455A14ED, 0xA9E3E905, 0xFCEFA3F8, 0x676F02D9, 0x8D2A4C8A,
        0xFFFA3942, 0x8771F681, 0x6D9D6122, 0xFDE5380C, 0xA4BEEA44, 0x4BDECFA9, 0xF6BB4B60, 0xBEBFBC70,
        0x289B7EC6, 0xEAA127FA, 0xD4EF3085, 0x04881D05, 0xD9D4D039, 0xE6DB99E5, 0x1FA27CF8, 0xC4AC5665,
        0xF4292244, 0x432AFF97, 0xAB9423A7, 0xFC93A039, 0x655B59C3, 0x8F0CCC92, 0xFFEFF47D, 0x85845DD1,
        0x6FA87E4F, 0xFE2CE6E0, 0xA3014314, 0x4E0811A1, 0xF7537E82, 0xBD3AF235, 0x2AD7D2BB, 0xEB86D391,
    ];
    assert(k@ =~= seq![
        0xD76AA478u32, 0xE8C7B756, 0x242070DB, 0xC1BDCEEE, 0xF57C0FAF, 0x4787C62A, 0xA8304613, 0xFD469501,
        0x698098D8, 0x8B44F7AF, 0xFFFF5BB1, 0x895CD7BE, 0x6B901122, 0xFD987193, 0xA679438E, 0x49B40821,
        0xF61E2562, 0xC040B340, 0x265E5A51, 0xE9B6C7AA, 0xD62F105D, 0x02441453, 0xD8A1E681, 0xE7D3FBC8,
        0x21E1CDE6, 0xC33707D6, 0xF4D50D87, 0x455A14ED, 0xA9E3E905, 0xFCEFA3F8, 0x676F02D9, 0x8D2A4C8A,
        0xFFFA3942, 0x8771F681, 0x6D9D6122, 0xFDE5380C, 0xA4BEEA44, 0x4BDECFA9, 0xF6BB4B60, 0xBEBFBC70,
        0x289B7EC6, 0xEAA127FA, 0xD4EF3085, 0x04881D05, 0xD9D4D039, 0xE6DB99E5, 0x1FA27CF8, 0xC4AC5665,
        0xF4292244, 0x432AFF97, 0xAB9423A7, 0xFC93A039, 0x655B59C3, 0x8F0CCC92, 0xFFEFF47D, 0x85845DD1,
        0x6FA87E4F, 0xFE2CE6E0, 0xA3014314, 0x4E0811A1, 0xF7537E82, 0xBD3AF235, 0x2AD7D2BB, 0xEB86D391,
    ]);
    k[i]
}

fn md5_s_at(i: usize) -> (r: u32)
    requires
        i < 64,
    ensures
        r == md5_s(i as int),
        0 < r < 32,
{
    let r = i / 16;
    let j = i % 4;
    if r == 0 {
        if j == 0 { 7 } else if j == 1 { 12 } else if j == 2 { 17 } else { 22 }
    } else if r == 1 {
        if j == 0 { 5 } else if j == 1 { 9 } else if j == 2 { 14 } else { 20 }
    } else if r == 2 {
        if j == 0 { 4 } else if j == 1 { 11 } else if j == 2 { 16 } else { 23 }
    } else {
        if j == 0 { 6 } else if j == 1 { 10 } else if j == 2 { 15 } else { 21 }
    }
}

fn md5_g_at(i: usize) -> (r: usize)
    requires
        i < 64,
    ensures
        r as int == md5_g(i as int),
        r < 16,
{
    if i < 16 {
        i
    } else if i < 32 {
        (5 * i + 1) % 16
    } else if i < 48 {
        (3 * i + 5) % 16
    } else {
        (7 * i) % 16
    }
}

fn md5_f_at(i: usize, x: u32, y: u32, z: u32) -> (r: u32)
    requires
        i < 64,
    ensures
        r == md5_f(i as int, x, y, z),
{
    if i < 16 {
        z ^ (x & (y ^ z))
    } else if i < 32 {
        y ^ (z & (x ^ y))
    } else if i < 48 {
        x ^ y ^ z
    } else {
        y ^ (x | !z)
    }
}

/// Compresses one block of sixteen words into the chaining state.
fn md5_transform(state: &mut [u32; 4], block: &[u32; 16])
    ensures
        final(state)@ == md5_compress(old(state)@, block@),
{
    let ghost h = state@;
    let mut a = state[0];
    let mut b = state[1];
    let mut c = state[2];
    let mut d = state[3];
    let mut i: usize = 0;
    while i < 64
        invariant
            i <= 64,
            h == state@,
            block@.len() == 16,
            (a, b, c, d) == md5_rounds((h[0], h[1], h[2], h[3]), block@, i as nat),
        decreases 64 - i,
    {
        let f = md5_f_at(i, b, c, d);
        let g = md5_g_at(i);
        let t = a.wrapping_add(f).wrapping_add(block[g].wrapping_add(md5_k_at(i)));
        let nb = b.wrapping_add(rotate_left32(t, md5_s_at(i)));
        a = d;
        d = c;
        c = b;
        b = nb;
        i = i + 1;
    }
    state[0] = state[0].wrapping_add(a);
    state[1] = state[1].wrapping_add(b);
    state[2] = state[2].wrapping_add(c);
    state[3] = state[3].wrapping_add(d);
    assert(state@ =~= md5_compress(h, block@));
}

/// Reads 64 bytes of `data` from `start` as sixteen little-endian words.
fn read_block(data: &[u8], start: usize) -> (r: [u32; 16])
    requires
        start + 64 <= data@.len(),
    ensures
        r@ == block_words(data@.subrange(start as int, start + 64)),
{
    let ghost blk = data@.subrange(start as int, start + 64);
    let mut out = [0u32; 16];
    let mut j: usize = 0;
    while j < 16
        invariant
            j <= 16,
            start + 64 <= data.len(),
            blk == data@.subrange(start as int, start + 64),
            out@.len() == 16,
            forall|m: int| 0 <= m < j ==> #[trigger] out@[m] == le32(blk, 4 * m),
        decreases 16 - j,
    {
        out[j] = le32_at(data, start + 4 * j);
        j = j + 1;
    }
    assert(out@ =~= block_words(blk));
    out
}

proof fn lemma_byte_of_shift(v: int, k: nat)
    requires
        v >= 0,
    ensures
        byte_of(v, k + 1) == byte_of(v / 0x100, k),
{
}

/// Writes the eight little-endian bytes of `v` at `off`.
fn store64_le(buf: &mut [u8; 128], off: usize, v: u64)
    requires
        off + 8 <= 128,
    ensures
        forall|i: int| 0 <= i < 128 && !(off <= i < off + 8) ==> #[trigger] final(buf)@[i] == old(buf)@[i],
        forall|k: int| 0 <= k < 8 ==> #[trigger] final(buf)@[off + k] == byte_of(v as int, k as nat) as u8,
{
    let mut cur = v;
    let mut k: usize = 0;
    while k < 8
        invariant
            k <= 8,
            off + 8 <= 128,
            forall|i: int| 0 <= i < 128 && !(off <= i < off + 8) ==> #[trigger] buf@[i] == old(buf)@[i],
            forall|m: int| 0 <= m < k ==> #[trigger] buf@[off + m] == byte_of(v as int, m as nat) as u8,
            forall|m: nat| #[trigger] byte_of(cur as int, m) == byte_of(v as int, (m + k) as nat),
        decreases 8 - k,
    {
        buf[off + k] = (cur % 0x100) as u8;
        proof {
            assert(byte_of(cur as int, 0) == byte_of(v as int, k as nat));
            assert forall|m: nat| #[trigger] byte_of((cur / 0x100) as int, m) == byte_of(v as int, (m + k + 1) as nat) by {
                lemma_byte_of_shift(cur as int, m);
                assert(byte_of(cur as int, m + 1) == byte_of(v as int, (m + 1 + k) as nat));
            }
        }
        cur = cur / 0x100;
        k = k + 1;
    }
}

proof fn lemma_message_len(n: nat)
    ensures
        md5_padded_len(n) % 64 == 0,
        md5_padded_len(n) >= n + 9,
        md5_padded_len(n) / 64 == n / 64 + (if n % 64 < 56 { 1int } else { 2int }),
{
}

/// Computes the MD5 digest of `data`.
pub fn calc_md5(data: &[u8]) -> (r: Md5Value)
    ensures
        r.0@ == md5_digest(data@),
{
    let ghost msg = md5_message(data@);
    let mut state: [u32; 4] = [0x67452301, 0xEFCDAB89, 0x98BADCFE, 0x10325476];
    let n = data.len();
    let full = n / 64;
    proof {
        lemma_message_len(n as nat);
        assert(state@ =~= md5_blocks(msg, 0));
    }
    let mut k: usize = 0;
    while k < full
        invariant
            n == data@.len(),
            full == n / 64,
            k <= full,
            msg == md5_message(data@),
            msg.len() == md5_padded_len(n as nat),
            state@ == md5_blocks(msg, k as nat),
        decreases full - k,
    {
        let words = read_block(data, 64 * k);
        proof {
            assert(msg.subrange(64 * k, 64 * (k + 1)) =~= data@.subrange(64 * k, 64 * k + 64));
        }
        md5_transform(&mut state, &words);
        k = k + 1;
    }
    let tail = n - 64 * full;
    let bits = (n as u64).wrapping_mul(8);
    let mut padding = [0u8; 128];
    let mut j: usize = 0;
    while j < tail
        invariant
            j <= tail,
            tail == n - 64 * full,
            tail < 64,
            full == n / 64,
            n == data@.len(),
            forall|m: int| 0 <= m < j ==> #[trigger] padding@[m] == data@[64 * full + m],
            forall|m: int| j <= m < 128 ==> #[trigger] padding@[m] == 0,
        decreases tail - j,
    {
        padding[j] = data[64 * full + j];
        j = j + 1;
    }
    padding[tail] = 0x80;
    let ghost total = md5_padded_len(n as nat);
    proof {
        assert(bits as int == (n * 8) % 0x1_0000_0000_0000_0000);
    }
    if tail < 56 {
        store64_le(&mut padding, 56, bits);
        let words = read_block(&padding, 0);
        proof {
            assert(total == 64 * full + 64);
            assert forall|i: int| 0 <= i < 64 implies #[trigger] msg.subrange(64 * full, 64 * full + 64)[i] == padding@.subrange(0, 64)[i] by {
                if i >= 56 {
                    assert(padding@[56 + (i - 56)] == byte_of(bits as int, (i - 56) as nat) as u8);
                }
            }
            assert(msg.subrange(64 * full, 64 * (full + 1)) =~= padding@.subrange(0, 64));
        }
        md5_transform(&mut state, &words);
        assert(state@ == md5_blocks(msg, (full + 1) as nat));
    } else {
        store64_le(&mut padding, 120, bits);
        let words1 = read_block(&padding, 0);
        proof {
            assert(total == 64 * full + 128);
            assert(msg.subrange(64 * full, 64 * (full + 1)) =~= padding@.subrange(0, 64));
        }
        md5_transform(&mut state, &words1);
        assert(state@ == md5_blocks(msg, (full + 1) as nat));
        let words2 = read_block(&padding, 64);
        proof {
            assert forall|i: int| 0 <= i < 64 implies #[trigger] msg.subrange(64 * (full + 1), 64 * (full + 2))[i] == padding@.subrange(64, 128)[i] by {
                if i >= 56 {
                    assert(padding@[120 + (i - 56)] == byte_of(bits as int, (i - 56) as nat) as u8);
                }
            }
            assert(msg.subrange(64 * (full + 1), 64 * (full + 2)) =~= padding@.subrange(64, 128));
        }
        md5_transform(&mut state, &words2);
        assert(state@ == md5_blocks(msg, (full + 2) as nat));
    }
    let ghost h = state@;
    proof {
        assert(h == md5_blocks(msg, msg.len() / 64));
    }
    let mut out = [0u8; 16];
    let mut w: usize = 0;
    while w < 4
        invariant
            w <= 4,
            state@ == h,
            forall|i: int| 0 <= i < 4 * w ==> #[trigger] out@[i] == byte_of(h[i / 4] as int, (i % 4) as nat) as u8,
        decreases 4 - w,
    {
        let word = state[w];
        out[4 * w] = (word % 0x100) as u8;
        out[4 * w + 1] = ((word / 0x100) % 0x100) as u8;
        out[4 * w + 2] = ((word / 0x10000) % 0x100) as u8;
        out[4 * w + 3] = (word / 0x1000000) as u8;
        proof {
            reveal_with_fuel(byte_of, 4);
            let x = word as int;
            assert(x / 0x100 / 0x100 == x / 0x10000);
            assert(x / 0x10000 / 0x100 == x / 0x1000000);
            assert(x / 0x1000000 < 0x100);
            assert(out@[4 * w] == byte_of(h[w as int] as int, 0) as u8);
            assert(out@[4 * w + 1] == byte_of(h[w as int] as int, 1) as u8);
            assert(out@[4 * w + 2] == byte_of(h[w as int] as int, 2) as u8);
            assert(out@[4 * w + 3] == byte_of(h[w as int] as int, 3) as u8);
        }
        w = w + 1;
    }
    assert(out@ =~= md5_digest(data@));
    Md5Value(out)
}

} // verus!
