//! What operations on the bits of words mean as numbers.

use vstd::prelude::*;

verus! {

/// Whether bit `i` of a word is set.
pub open spec fn bit(x: u32, i: u32) -> bool {
    x & (1u32 << i) != 0
}

/// A word as a signed number.
pub open spec fn signed32(x: u32) -> int {
    if x < 0x8000_0000 {
        x as int
    } else {
        x - 0x1_0000_0000
    }
}

/// A 16-bit number as a signed one.
pub open spec fn signed16(k: int) -> int {
    if k < 0x8000 {
        k
    } else {
        k - 0x1_0000
    }
}

/// An 8-bit number as a signed one.
pub open spec fn signed8(k: int) -> int {
    if k < 0x80 {
        k
    } else {
        k - 0x100
    }
}

/// The word that stands for a number: the number modulo 2^32.
pub open spec fn word_of(n: int) -> u32 {
    (n % 0x1_0000_0000) as u32
}

/// The fields of an instruction word, and of other words that are packed alike.
pub proof fn lemma_fields_of(x: u32)
    by (bit_vector)
    ensures
        x >> 26u32 == x / 0x400_0000,
        (x >> 21u32) & 0x1F == x / 0x20_0000 % 32,
        (x >> 16u32) & 0x1F == x / 0x1_0000 % 32,
        (x >> 11u32) & 0x1F == x / 0x800 % 32,
        (x >> 6u32) & 0x1F == x / 0x40 % 32,
        ((x >> 16u32) & 0x1F) & 0x10 != 0 <==> x / 0x1_0000 % 32 >= 16,
        ((x >> 16u32) & 0x1F) & 1 == 0 <==> x / 0x1_0000 % 32 % 2 == 0,
        x & 0x1F == x % 32,
        x & 0x3F == x % 64,
        x & 0xFF == x % 0x100,
        x & 0x7FF == x % 0x800,
        x & 0xFFFF == x % 0x1_0000,
        x & 0x03FF_FFFF == x % 0x400_0000,
        x & 1 == x % 2,
        x & 3 == x % 4,
        x & !3u32 == x / 4 * 4,
        x >> 16u32 == x / 0x1_0000,
        x >> 24u32 == x / 0x100_0000,
        ((x >> 8u32) as u8) as u32 == x / 0x100 % 0x100,
        ((x >> 16u32) as u8) as u32 == x / 0x1_0000 % 0x100,
        ((x >> 24u32) as u8) as u32 == x / 0x100_0000,
        (x as u8) as u32 == x % 0x100,
        (x as u16) as u32 == x % 0x1_0000,
        x & 0x00FF_FFFF == x % 0x100_0000,
        x & 0x1FFF_FFFF == x % 0x2000_0000,
{
}

/// The immediate operand of an instruction word.
pub proof fn lemma_immediate_of(x: u32)
    by (bit_vector)
    ensures
        x % 0x1_0000 < 0x8000 ==> (x as i16) as i32 as u32 == x % 0x1_0000,
        x % 0x1_0000 >= 0x8000 ==> (x as i16) as i32 as u32 == x % 0x1_0000 + 0xFFFF_0000,
        x % 0x1_0000 < 0x8000 ==> ((x as i16) as i32 as u32) << 2u32 == (x % 0x1_0000) * 4,
        x % 0x1_0000 >= 0x8000 ==> ((x as i16) as i32 as u32) << 2u32 == (x % 0x1_0000) * 4
            + 0xFFFC_0000,
        ((x as u16) as u32) << 16u32 == (x % 0x1_0000) * 0x1_0000,
{
}

/// A word as a signed machine integer.
pub proof fn lemma_signed_of(x: u32, h: u16, b: u8)
    by (bit_vector)
    ensures
        x < 0x8000_0000 ==> x as i32 as int == x as int,
        x >= 0x8000_0000 ==> x as i32 as int == x - 0x1_0000_0000,
        b < 0x80 ==> b as i8 as i32 as u32 as int == b as int,
        b >= 0x80 ==> b as i8 as i32 as u32 as int == b + 0xFFFF_FF00,
        h < 0x8000 ==> h as i16 as i32 as u32 as int == h as int,
        h >= 0x8000 ==> h as i16 as i32 as u32 as int == h + 0xFFFF_0000,
{
}

/// A signed machine integer as a word.
pub proof fn lemma_unsigned_of(i: i32)
    by (bit_vector)
    ensures
        i >= 0 ==> i as u32 as int == i as int,
        i < 0 ==> i as u32 as int == i + 0x1_0000_0000,
{
}

/// Coordinates under a mask.
pub proof fn lemma_coordinate_of(i: i32)
    by (bit_vector)
    ensures
        0 <= i & 0xFF <= 255,
        i >= 0 ==> (i & 0xFF) as u32 == (i as u32) % 256,
        0 <= i <= 0x40F ==> 0 <= i & !0xFi32 <= 0x40F,
{
}

/// The fields of register, address and drawing words.
pub proof fn lemma_parts_of(x: u32)
    by (bit_vector)
    ensures
        x & 1 == x % 2,
        x & 0xF == x % 16,
        x & 0xFF == x % 0x100,
        x & 511 == x % 512,
        x & 1023 == x % 1024,
        x & 0x7FF == x % 0x800,
        x & 0x7_FFFF == x % 0x8_0000,
        x & 0x3F0 <= 0x3F0,
        x >> 16u32 == x / 0x1_0000,
        (x >> 4u32) & 1 == x / 16 % 2,
        (x >> 7u32) & 3 == x / 128 % 4,
        (x >> 8u32) & 0xFF == x / 0x100 % 0x100,
        (x >> 9u32) & 3 == x / 0x200 % 4,
        (x >> 16u32) & 0xFF == x / 0x1_0000 % 0x100,
        (x >> 16u32) & 0x3F == x / 0x1_0000 % 64,
        (x >> 16u32) & 0x1FF == x / 0x1_0000 % 512,
        (x >> 22u32) & 0x1FF == x / 0x40_0000 % 512,
        (x & 0xFFF) >> 2u32 == x % 0x1000 / 4,
        (x & 0xFF0) >> 2u32 == x % 0x1000 / 4 / 4 * 4,
        x & 0x401 == 0x401 <==> x % 2 == 1 && x / 0x400 % 2 == 1,
        x & (8u32 << 8u32) != 0 <==> x / 0x800 % 2 == 1,
        x & (8u32 << 12u32) != 0 <==> x / 0x8000 % 2 == 1,
        x & (8u32 << 16u32) != 0 <==> x / 0x8_0000 % 2 == 1,
        x & (8u32 << 24u32) != 0 <==> x / 0x800_0000 % 2 == 1,
        x & 0x0100_0000 == 0 <==> x / 0x100_0000 % 2 == 0,
        x & !0x0100_0000u32 == x - x / 0x100_0000 % 2 * 0x100_0000,
        x <= 0xFFFF ==> x << 3u32 == x * 8 && ((x << 3u32) >> 3u32) == x,
        (x as u16) as u32 == x & 0xFFFF,
        ((x as u16) as u32 | (((x >> 16u32) as u16) as u32) << 16u32) == x,
        (x ^ 0x8000_0000u32) >> 31u32 != x >> 31u32,
        (x ^ 0x8000_0000u32) ^ 0x8000_0000u32 == x,
        (x ^ 0x8000_0000u32) & 0x7FFF_FFFFu32 == x & 0x7FFF_FFFFu32,
{
}

/// Two words under one another's masks.
pub proof fn lemma_masked_of(a: u32, b: u32)
    by (bit_vector)
    ensures
        a & b <= a,
        a & b <= b,
        (a & 0) | b == b,
        1u32 << 30u32 == 0x4000_0000u32,
        a & b & 0x0300 != 0 <==> (b / 0x100 % 2 == 1 && a / 0x100 % 2 == 1) || (b / 0x200 % 2 == 1
            && a / 0x200 % 2 == 1),
        (((a & !0x6000_0000u32) | ((b & 3) << 29u32)) >> 29u32) & 3 == b & 3,
        ((a & !0x6000_0000u32) | ((b & 3) << 29u32)) & !0x6000_0000u32 == a & !0x6000_0000u32,
{
}

/// Halfwords under one another's masks, and the bits of mode and status registers.
pub proof fn lemma_half_of(h: u16, f: u16)
    by (bit_vector)
    ensures
        h & f <= f,
        h as u8 == h % 0x100,
        (h >> 8u32) as u8 == h / 0x100,
        (h as u8) as u16 | (((h >> 8u32) as u8) as u16) << 8u32 == h,
        ((h & !0x3Fu16) | (f & 0x3F)) & 0x3F == f & 0x3F,
        (h & !0x1800u16) & 0x1800 == 0,
        (h & !0x1800u16) & !0x1800u16 == h & !0x1800u16,
        h & 0x0008 != 0 <==> h / 0x08 % 2 == 1,
        h & 0x0010 != 0 <==> h / 0x10 % 2 == 1,
        h & 0x0020 != 0 <==> h / 0x20 % 2 == 1,
        h & 0x0040 != 0 <==> h / 0x40 % 2 == 1,
        h & 0x0100 != 0 <==> h / 0x100 % 2 == 1,
        h & 0x0200 != 0 <==> h / 0x200 % 2 == 1,
        h & 0x0001 != 0 <==> h % 2 == 1,
        f == 0x0800 || f == 0x1000 ==> {
            &&& ((h | f) | 0x0400) / 0x08 % 2 == h / 0x08 % 2
            &&& ((h | f) | 0x0400) / 0x10 % 2 == h / 0x10 % 2
            &&& ((h | f) | 0x0400) / 0x20 % 2 == h / 0x20 % 2
            &&& ((h | f) | 0x0400) / 0x40 % 2 == h / 0x40 % 2
        },
        ((h | 0x0800u16) | 0x0400) / 0x800 % 2 == 1,
        ((h | 0x0800u16) | 0x0400) / 0x400 % 2 == 1,
        ((h | 0x1000u16) | 0x0400) / 0x1000 % 2 == 1,
        ((h | 0x1000u16) | 0x0400) / 0x400 % 2 == 1,
        (h | 0x0800u16) / 0x800 % 2 == 1,
        ((h | 0x0800u16) | 0x1000) / 0x800 % 2 == 1,
        (h | 0x1000u16) / 0x1000 % 2 == 1,
{
}

/// The nibbles of a byte, and the flags of a port's control and status bytes.
pub proof fn lemma_byte_of(b: u8, c: u8)
    by (bit_vector)
    ensures
        b >> 4u32 == b / 16,
        b & 0x0F == b % 16,
        b <= 9 && c <= 9 ==> ((b << 4u32 | c) >> 4u32) == b && ((b << 4u32 | c) & 0x0F) == c,
        (c | 0x40u8) & 3 == c & 3,
        (c | 0x80u8) & 3 == c & 3,
        (c | 0x80u8) & 0x80 != 0,
        (c | 0x40u8) & !0x40u8 & 0x40u8 == 0,
        0x80u8 & 0x80 != 0,
        0xFFu8 & 0x40 != 0,
        0x1Fu8 & 0x40 == 0,
        0x20u8 | 0x02u8 == 0x22u8,
        b & !0xFFu8 == 0,
        b & !0u8 == b,
        !(0x20u8 | 0x40u8) == !0x60u8,
        b <= 0x1F ==> b & !0x1Fu8 == 0,
        ((c | 0x20u8) | (0x08u8 | 0x10u8)) & 0x20 != 0,
        ((c & !0x20u8) | (0x08u8 | 0x10u8)) & 0x20 == 0,
        ((1u8 & 3) | (c & !3u8)) & 3 == 1,
        ((0u8 & 3) | (((1u8 & 3) | (c & !3u8)) & !3u8)) & 3 == 0,
        ((0u8 & 3) | (((1u8 & 3) | (c & !3u8)) & !3u8)) & 0xFC == c & 0xFC,
{
}

/// The low half of a cycle count, and a count as a signed number.
pub proof fn lemma_long_of(c: u64)
    by (bit_vector)
    ensures
        c <= 0xFFFF ==> c & 0xFFFF == c,
        c & 0xFFFF == c % 0x1_0000,
        c < 0x8000_0000_0000_0000 ==> c as i64 == c,
{
}

/// Two words joined, bit by bit, and words shifted.
pub proof fn lemma_bits_of(a: u32, b: u32, i: u32, s: u32)
    by (bit_vector)
    requires
        i < 32,
        s < 32,
    ensures
        (a & b) & (1u32 << i) != 0 <==> a & (1u32 << i) != 0 && b & (1u32 << i) != 0,
        (a | b) & (1u32 << i) != 0 <==> a & (1u32 << i) != 0 || b & (1u32 << i) != 0,
        (a ^ b) & (1u32 << i) != 0 <==> (a & (1u32 << i) != 0) != (b & (1u32 << i) != 0),
        !(a | b) & (1u32 << i) != 0 <==> a & (1u32 << i) == 0 && b & (1u32 << i) == 0,
        i < s ==> (a << s) & (1u32 << i) == 0,
        i >= s ==> ((a << s) & (1u32 << i) != 0 <==> a & (1u32 << ((i - s) as u32)) != 0),
        i + s >= 32 ==> (a >> s) & (1u32 << i) == 0,
        i + s < 32 ==> ((a >> s) & (1u32 << i) != 0 <==> a & (1u32 << ((i + s) as u32)) != 0),
        i + s >= 32 ==> ((((a as i32) >> s) as u32) & (1u32 << i) != 0 <==> a & (1u32 << 31u32)
            != 0),
        i + s < 32 ==> ((((a as i32) >> s) as u32) & (1u32 << i) != 0 <==> a & (1u32 << ((i
            + s) as u32)) != 0),
        s & 0x1F == s,
        a % 32 == a & 0x1F,
{
}

/// The two halves of a product.
pub proof fn lemma_halves_of(p: u64, q: i64)
    by (bit_vector)
    ensures
        ((p >> 32u32) as u32) * 0x1_0000_0000 + (p as u32) == p,
        (((q >> 32u32) as u32) as i32) * 0x1_0000_0000 + (q as u32) == q,
{
}

/// Bytes put together to words.
pub proof fn lemma_bytes_of(a: u8, b: u8, c: u8, d: u8)
    by (bit_vector)
    ensures
        (a as u16) | ((b as u16) << 8) == a + b * 0x100,
        (a as u32) | ((b as u32) << 8) | ((c as u32) << 16) | ((d as u32) << 24) == a + b * 0x100
            + c * 0x1_0000 + d * 0x100_0000,
{
}

/// A jump's target, a cause and the stack of mode bits.
pub proof fn lemma_control_of(x: u32, pc: u32, e: u32)
    by (bit_vector)
    ensures
        ((x & 0x03FF_FFFF) << 2u32) | (pc & 0xF000_0000) == (x % 0x400_0000) * 4 + pc / 0x1000_0000
            * 0x1000_0000,
        e < 0x20 ==> e << 2u32 == e * 4 && (e << 2u32) | 0x8000_0000 == e * 4 + 0x8000_0000,
        (x & !0x3Fu32) | ((x & 0x0F) << 2u32) == x / 64 * 64 + x % 16 * 4,
        x & 0x0040_0000 != 0 <==> x / 0x40_0000 % 2 == 1,
        x & 0x1_0000 != 0 <==> x / 0x1_0000 % 2 == 1,
        (x & !0x0300u32) | (pc & 0x0300) == x - x % 0x400 + x % 0x100 + (pc % 0x400 - pc % 0x100),
{
}

} // verus!
