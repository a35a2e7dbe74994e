//! Byte-order, rotation, BCD and rounding helpers.
use vstd::prelude::*;

verus! {

// ---------------------------------------------------------------------------
// Mathematical models
// ---------------------------------------------------------------------------

/// The value of two bytes read most significant first.
pub open spec fn be16(b0: u8, b1: u8) -> int {
    b0 as int * 0x100 + b1 as int
}

/// The value of three bytes read most significant first.
pub open spec fn be24(b0: u8, b1: u8, b2: u8) -> int {
    b0 as int * 0x10000 + b1 as int * 0x100 + b2 as int
}

/// The value of four bytes read most significant first.
pub open spec fn be32(b0: u8, b1: u8, b2: u8, b3: u8) -> int {
    b0 as int * 0x1000000 + b1 as int * 0x10000 + b2 as int * 0x100 + b3 as int
}

/// Byte `k` (0 = least significant) of a non-negative integer.
pub open spec fn byte_of(v: int, k: nat) -> int
    decreases k,
{
    if k == 0 {
        v % 0x100
    } else {
        byte_of(v / 0x100, (k - 1) as nat)
    }
}

/// The value of a BCD byte: high nibble times ten plus low nibble.
pub open spec fn bcd_byte_value(b: u8) -> int {
    (b as int / 16) * 10 + b as int % 16
}

/// The value of the first `n` BCD bytes of `data`, as a decimal number.
pub open spec fn bcd_bytes_value(data: Seq<u8>, n: nat) -> int
    decreases n,
{
    if n == 0 {
        0
    } else {
        bcd_bytes_value(data, (n - 1) as nat) * 100 + bcd_byte_value(data[n - 1])
    }
}

/// The value of the first `nibbles` BCD digits of `data`.
pub open spec fn bcd_value(data: Seq<u8>, nibbles: nat) -> int {
    let whole = bcd_bytes_value(data, nibbles / 2);
    if nibbles % 2 == 1 {
        whole * 10 + data[(nibbles / 2) as int] as int / 16
    } else {
        whole
    }
}

// ---------------------------------------------------------------------------
// Byte swaps
// ---------------------------------------------------------------------------

/// Reverses the byte order of a 16-bit value.
pub fn byte_swap16(v: u16) -> (r: u16)
    ensures
        r as int == (v as int % 0x100) * 0x100 + v as int / 0x100,
{
    (v % 0x100) * 0x100 + v / 0x100
}

/// Reverses the byte order of a 32-bit value.
pub fn byte_swap32(v: u32) -> (r: u32)
    ensures
        r as int == byte_of(v as int, 0) * 0x1000000 + byte_of(v as int, 1) * 0x10000
            + byte_of(v as int, 2) * 0x100 + byte_of(v as int, 3),
{
    let b0 = v % 0x100;
    let b1 = (v / 0x100) % 0x100;
    let b2 = (v / 0x10000) % 0x100;
    let b3 = v / 0x1000000;
    proof {
        reveal_with_fuel(byte_of, 4);
        assert(v as int / 0x100 / 0x100 == v as int / 0x10000);
        assert(v as int / 0x100 / 0x100 / 0x100 == v as int / 0x1000000);
    }
    b0 * 0x1000000 + b1 * 0x10000 + b2 * 0x100 + b3
}

/// Reverses the byte order of a 64-bit value.
pub fn byte_swap64(v: u64) -> (r: u64)
    ensures
        r as int == byte_of(v as int, 0) * 0x100000000000000 + byte_of(v as int, 1) * 0x1000000000000
            + byte_of(v as int, 2) * 0x10000000000 + byte_of(v as int, 3) * 0x100000000
            + byte_of(v as int, 4) * 0x1000000 + byte_of(v as int, 5) * 0x10000
            + byte_of(v as int, 6) * 0x100 + byte_of(v as int, 7),
{
    let b0 = v % 0x100;
    let b1 = (v / 0x100) % 0x100;
    let b2 = (v / 0x10000) % 0x100;
    let b3 = (v / 0x1000000) % 0x100;
    let b4 = (v / 0x100000000) % 0x100;
    let b5 = (v / 0x10000000000) % 0x100;
    let b6 = (v / 0x1000000000000) % 0x100;
    let b7 = v / 0x100000000000000;
    proof {
        reveal_with_fuel(byte_of, 8);
        let x = v as int;
        assert(x / 0x100 / 0x100 == x / 0x10000);
        assert(x / 0x10000 / 0x100 == x / 0x1000000);
        assert(x / 0x1000000 / 0x100 == x / 0x100000000);
        assert(x / 0x100000000 / 0x100 == x / 0x10000000000);
        assert(x / 0x10000000000 / 0x100 == x / 0x1000000000000);
        assert(x / 0x1000000000000 / 0x100 == x / 0x100000000000000);
    }
    b0 * 0x100000000000000 + b1 * 0x1000000000000 + b2 * 0x10000000000 + b3 * 0x100000000
        + b4 * 0x1000000 + b5 * 0x10000 + b6 * 0x100 + b7
}

// ---------------------------------------------------------------------------
// Rotations
// ---------------------------------------------------------------------------

/// `v` rotated left by `shift` bits (taken modulo 32).
pub open spec fn rotl32(v: u32, shift: u32) -> u32 {
    (v << (shift % 32)) | (v >> ((32 - shift % 32) % 32) as u32)
}

/// Rotates a 32-bit value left by `shift` bits (taken modulo 32).
pub fn rotate_left32(v: u32, shift: u32) -> (r: u32)
    ensures
        r == rotl32(v, shift),
{
    let s = shift % 32;
    let t = (32 - s) % 32;
    (v << s) | (v >> t)
}

/// Rotates a 32-bit value right by `shift` bits (taken modulo 32).
pub fn rotate_right32(v: u32, shift: u32) -> (r: u32)
    ensures
        r == (v >> (shift % 32)) | (v << ((32 - shift % 32) % 32) as u32),
{
    let s = shift % 32;
    let t = (32 - s) % 32;
    (v >> s) | (v << t)
}

/// Rotating right by the amount just rotated left gives the value back.
pub proof fn lemma_rotate_right_undoes_left(v: u32, s: u32)
    requires s < 32,
    ensures
        ({
            let l = (v << s) | (v >> ((32 - s) % 32) as u32);
            ((l >> s) | (l << ((32 - s) % 32) as u32)) == v
        }),
{
    assert(s < 32 ==> ({
        let l = (v << s) | (v >> ((32 - s) % 32) as u32);
        ((l >> s) | (l << ((32 - s) % 32) as u32)) == v
    })) by (bit_vector);
}

// ---------------------------------------------------------------------------
// Big-endian loads and stores
// ---------------------------------------------------------------------------

/// Reads two bytes most significant first.
pub fn load16_be(p: &[u8]) -> (r: u16)
    requires
        p@.len() >= 2,
    ensures
        r as int == be16(p@[0], p@[1]),
{
    (p[0] as u16) * 0x100 + p[1] as u16
}

/// Reads three bytes most significant first.
pub fn load24_be(p: &[u8]) -> (r: u32)
    requires
        p@.len() >= 3,
    ensures
        r as int == be24(p@[0], p@[1], p@[2]),
{
    (p[0] as u32) * 0x10000 + (p[1] as u32) * 0x100 + p[2] as u32
}

/// Reads four bytes most significant first.
pub fn load32_be(p: &[u8]) -> (r: u32)
    requires
        p@.len() >= 4,
    ensures
        r as int == be32(p@[0], p@[1], p@[2], p@[3]),
{
    (p[0] as u32) * 0x1000000 + (p[1] as u32) * 0x10000 + (p[2] as u32) * 0x100 + p[3] as u32
}

/// Writes a 16-bit value as two bytes, most significant first.
pub fn store16_be(p: &mut [u8], v: u16)
    requires
        old(p)@.len() >= 2,
    ensures
        final(p)@ == old(p)@.update(0, (v / 0x100) as u8).update(1, (v % 0x100) as u8),
{
    p[0] = (v / 0x100) as u8;
    p[1] = (v % 0x100) as u8;
}

/// Writes the low 24 bits of a value as three bytes, most significant first.
pub fn store24_be(p: &mut [u8], v: u32)
    requires
        old(p)@.len() >= 3,
    ensures
        final(p)@ == old(p)@.update(0, byte_of(v as int, 2) as u8).update(
            1,
            byte_of(v as int, 1) as u8,
        ).update(2, byte_of(v as int, 0) as u8),
{
    proof {
        reveal_with_fuel(byte_of, 3);
        assert(v as int / 0x100 / 0x100 == v as int / 0x10000);
    }
    p[0] = ((v / 0x10000) % 0x100) as u8;
    p[1] = ((v / 0x100) % 0x100) as u8;
    p[2] = (v % 0x100) as u8;
}

/// Writes a 32-bit value as four bytes, most significant first.
pub fn store32_be(p: &mut [u8], v: u32)
    requires
        old(p)@.len() >= 4,
    ensures
        final(p)@ == old(p)@.update(0, byte_of(v as int, 3) as u8).update(
            1,
            byte_of(v as int, 2) as u8,
        ).update(2, byte_of(v as int, 1) as u8).update(3, byte_of(v as int, 0) as u8),
{
    proof {
        reveal_with_fuel(byte_of, 4);
        assert(v as int / 0x100 / 0x100 == v as int / 0x10000);
        assert(v as int / 0x100 / 0x100 / 0x100 == v as int / 0x1000000);
    }
    p[0] = (v / 0x1000000) as u8;
    p[1] = ((v / 0x10000) % 0x100) as u8;
    p[2] = ((v / 0x100) % 0x100) as u8;
    p[3] = (v % 0x100) as u8;
}

/// Reading back two bytes written by `store16_be` gives the value written.
pub proof fn lemma_store16_load16(buf: Seq<u8>, v: u16)
    requires
        buf.len() >= 2,
    ensures
        ({
            let w = buf.update(0, (v / 0x100) as u8).update(1, (v % 0x100) as u8);
            be16(w[0], w[1]) == v
        }),
{
}

/// Reading back four bytes written by `store32_be` gives the value written.
pub proof fn lemma_store32_load32(buf: Seq<u8>, v: u32)
    requires
        buf.len() >= 4,
    ensures
        ({
            let w = buf.update(0, byte_of(v as int, 3) as u8).update(1, byte_of(v as int, 2) as u8)
                .update(2, byte_of(v as int, 1) as u8).update(3, byte_of(v as int, 0) as u8);
            be32(w[0], w[1], w[2], w[3]) == v
        }),
{
    reveal_with_fuel(byte_of, 4);
    let x = v as int;
    assert(x / 0x100 / 0x100 == x / 0x10000);
    assert(x / 0x100 / 0x100 / 0x100 == x / 0x1000000);
}

// ---------------------------------------------------------------------------
// BCD
// ---------------------------------------------------------------------------

/// Encodes a value as one BCD byte (tens in the high nibble, units in the low nibble).
/// For values of 160 and above the tens digit overflows the byte and is truncated.
pub fn make_bcd(value: u8) -> (r: u8)
    ensures
        r as int == ((value as int / 10) * 16) % 256 + value as int % 10,
{
    let t = ((value / 10) as u32 * 16) % 256;
    (t as u8) + value % 10
}

/// Decodes one BCD byte.
pub fn get_bcd_byte(value: u8) -> (r: u8)
    ensures
        r as int == bcd_byte_value(value),
{
    (value / 16) * 10 + value % 16
}

/// Decoding a BCD byte made from a value below 100 gives the value back.
pub proof fn lemma_bcd_roundtrip(value: u8)
    requires
        value <= 99,
    ensures
        bcd_byte_value((((value as int / 10) * 16) % 256 + value as int % 10) as u8) == value,
{
}

proof fn lemma_bcd_bytes_monotone(data: Seq<u8>, i: nat, j: nat)
    requires
        i <= j,
    ensures
        0 <= bcd_bytes_value(data, i) <= bcd_bytes_value(data, j),
    decreases j - i,
{
    if i < j {
        lemma_bcd_bytes_monotone(data, i, (j - 1) as nat);
        lemma_bcd_bytes_nonneg(data, (j - 1) as nat);
    } else {
        lemma_bcd_bytes_nonneg(data, i);
    }
}

proof fn lemma_bcd_bytes_nonneg(data: Seq<u8>, i: nat)
    ensures
        0 <= bcd_bytes_value(data, i),
    decreases i,
{
    if i > 0 {
        lemma_bcd_bytes_nonneg(data, (i - 1) as nat);
    }
}

/// Decodes `nibble_length` BCD digits from `data` into a decimal value.
pub fn get_bcd(data: &[u8], nibble_length: usize) -> (r: u32)
    requires
        (nibble_length + 1) / 2 <= data@.len(),
        bcd_value(data@, nibble_length as nat) <= u32::MAX,
    ensures
        r as int == bcd_value(data@, nibble_length as nat),
{
    let mut result: u32 = 0;
    let bytes = nibble_length / 2;
    let mut i: usize = 0;
    proof {
        lemma_bcd_bytes_monotone(data@, bytes as nat, bytes as nat);
        if nibble_length % 2 == 1 {
            assert(bcd_bytes_value(data@, bytes as nat) * 10 <= u32::MAX);
        }
    }
    while i < bytes
        invariant
            bytes == nibble_length / 2,
            (nibble_length + 1) / 2 <= data@.len(),
            i <= bytes,
            bcd_bytes_value(data@, bytes as nat) <= u32::MAX,
            result as int == bcd_bytes_value(data@, i as nat),
        decreases bytes - i,
    {
        proof {
            lemma_bcd_bytes_monotone(data@, (i + 1) as nat, bytes as nat);
        }
        result = result * 100 + get_bcd_byte(data[i]) as u32;
        i = i + 1;
    }
    if nibble_length % 2 != 0 {
        result = result * 10 + (data[nibble_length / 2] / 16) as u32;
    }
    result
}

// ---------------------------------------------------------------------------
// Rounding
// ---------------------------------------------------------------------------

/// Rounds `v` to the nearest multiple of `r` (halves round up).
pub fn round_off(v: u32, r: u32) -> (res: u32)
    requires
        r > 0,
        v + r / 2 <= u32::MAX,
    ensures
        res as int == (v as int + r as int / 2) / r as int * r as int,
        res as int % r as int == 0,
        res as int <= v as int + r as int / 2 < res as int + r as int,
{
    let q = (v + r / 2) / r;
    proof {
        vstd::arithmetic::div_mod::lemma_fundamental_div_mod((v + r / 2) as int, r as int);
        vstd::arithmetic::mul::lemma_mul_is_commutative(q as int, r as int);
        vstd::arithmetic::div_mod::lemma_mod_multiples_basic(q as int, r as int);
    }
    q * r
}

/// Rounds `v` up to a multiple of `r`.
pub fn round_up(v: u32, r: u32) -> (res: u32)
    requires
        r > 0,
        v + (r - 1) <= u32::MAX,
    ensures
        res as int == (v as int + r as int - 1) / r as int * r as int,
        res as int % r as int == 0,
        v <= res < v + r,
{
    let q = (v + (r - 1)) / r;
    proof {
        vstd::arithmetic::div_mod::lemma_fundamental_div_mod((v + r - 1) as int, r as int);
        vstd::arithmetic::mul::lemma_mul_is_commutative(q as int, r as int);
        vstd::arithmetic::div_mod::lemma_mod_multiples_basic(q as int, r as int);
    }
    q * r
}

/// Rounds `v` down to a multiple of `r`.
pub fn round_down(v: u32, r: u32) -> (res: u32)
    requires
        r > 0,
    ensures
        res as int == v as int / r as int * r as int,
        res as int % r as int == 0,
        res <= v < res + r,
{
    let q = v / r;
    proof {
        vstd::arithmetic::div_mod::lemma_fundamental_div_mod(v as int, r as int);
        vstd::arithmetic::mul::lemma_mul_is_commutative(q as int, r as int);
        vstd::arithmetic::div_mod::lemma_mod_multiples_basic(q as int, r as int);
    }
    q * r
}

// ---------------------------------------------------------------------------
// Byte buffers
// ---------------------------------------------------------------------------

/// Appends `s` to `v`.
pub(crate) fn extend_bytes(v: &mut Vec<u8>, s: &[u8])
    ensures
        final(v)@ == old(v)@ + s@,
{
    v.extend_from_slice(s);
    assert(final(v)@ =~= old(v)@ + s@);
}

/// The sub-slice `s[start..end]`.
pub(crate) fn sub_slice(s: &[u8], start: usize, end: usize) -> (r: &[u8])
    requires
        start <= end <= s@.len(),
    ensures
        r@ == s@.subrange(start as int, end as int),
{
    &s[start..end]
}

} // verus!
