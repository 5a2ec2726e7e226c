//! Little-endian words in byte stores.

use vstd::prelude::*;

verus! {

/// The 16-bit word stored little-endian at `off`.
pub open spec fn le16(s: Seq<u8>, off: int) -> u16 {
    (s[off] as u16) | ((s[off + 1] as u16) << 8)
}

/// The 32-bit word stored little-endian at `off`.
pub open spec fn le32(s: Seq<u8>, off: int) -> u32 {
    (s[off] as u32) | ((s[off + 1] as u32) << 8) | ((s[off + 2] as u32) << 16) | ((s[off
        + 3] as u32) << 24)
}

/// The store `s` with `v` written little-endian at `off`.
pub open spec fn put16(s: Seq<u8>, off: int, v: u16) -> Seq<u8> {
    s.update(off, v as u8).update(off + 1, (v >> 8) as u8)
}

/// The store `s` with `v` written little-endian at `off`.
pub open spec fn put32(s: Seq<u8>, off: int, v: u32) -> Seq<u8> {
    s.update(off, v as u8).update(off + 1, (v >> 8) as u8).update(off + 2, (v >> 16) as u8).update(
        off + 3,
        (v >> 24) as u8,
    )
}

/// Reads the 16-bit word at `off`.
pub fn read_le16(s: &[u8], off: usize) -> (r: u16)
    requires
        off + 1 < s@.len(),
    ensures
        r == le16(s@, off as int),
{
    (s[off] as u16) | ((s[off + 1] as u16) << 8)
}

/// Reads the 32-bit word at `off`.
pub fn read_le32(s: &[u8], off: usize) -> (r: u32)
    requires
        off + 3 < s@.len(),
    ensures
        r == le32(s@, off as int),
{
    (s[off] as u32) | ((s[off + 1] as u32) << 8) | ((s[off + 2] as u32) << 16) | ((s[off
        + 3] as u32) << 24)
}

/// Writes the 16-bit word `v` at `off`.
pub fn write_le16(s: &mut Vec<u8>, off: usize, v: u16)
    requires
        off + 1 < old(s).len(),
    ensures
        final(s)@ == put16(old(s)@, off as int, v),
{
    s[off] = v as u8;
    s[off + 1] = (v >> 8) as u8;
}

/// Writes the 32-bit word `v` at `off`.
pub fn write_le32(s: &mut Vec<u8>, off: usize, v: u32)
    requires
        off + 3 < old(s).len(),
    ensures
        final(s)@ == put32(old(s)@, off as int, v),
{
    s[off] = v as u8;
    s[off + 1] = (v >> 8) as u8;
    s[off + 2] = (v >> 16) as u8;
    s[off + 3] = (v >> 24) as u8;
}

/// A word read back from where it was written is the word that was written.
pub proof fn lemma_word_read_back(s: Seq<u8>, off: int, h: u16, w: u32)
    requires
        0 <= off,
    ensures
        off + 1 < s.len() ==> le16(put16(s, off, h), off) == h,
        off + 3 < s.len() ==> le32(put32(s, off, w), off) == w,
{
    crate::bits::lemma_half_of(h, 0);
    assert((w as u8) as u32 | (((w >> 8) as u8) as u32) << 8 | (((w >> 16) as u8) as u32) << 16 | (((
    w >> 24) as u8) as u32) << 24 == w) by (bit_vector);
}

/// Writing a word leaves every word that does not overlap it unchanged.
pub proof fn lemma_word_write_frame(s: Seq<u8>, off: int, w: u32, other: int)
    requires
        0 <= off,
        off + 3 < s.len(),
        0 <= other,
        other + 3 < s.len(),
        other + 4 <= off || off + 4 <= other,
    ensures
        le32(put32(s, off, w), other) == le32(s, other),
{
}

} // verus!
