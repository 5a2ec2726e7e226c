//! What a finished channel does to the interrupt registers, bit by bit.

use crate::bus::state::{with_master_flag, BusState, HW_SIZE};
use crate::scheduler::{flagged, lemma_flag_update};
use crate::word::{le32, lemma_word_read_back, lemma_word_write_frame, put32};
use vstd::prelude::*;

verus! {

/// The flags of the channels and the interrupt they raise together.
proof fn lemma_channel_flags(d: u32, ch: u32, i: u32)
    by (bit_vector)
    requires
        ch <= 6,
        i < 31,
    ensures
        (d >> ((16 + ch) as u32)) & 1 != 0 <==> d & (1u32 << ((16 + ch) as u32)) != 0,
        d & (1u32 << ((16 + ch) as u32)) != 0 ==> (((d | (1u32 << ((24 + ch) as u32))) >> 24u32)
            & 0x7F) & (((d | (1u32 << ((24 + ch) as u32))) >> 16u32) & 0x7F) != 0,
        (d | (1u32 << ((24 + ch) as u32))) & (1u32 << 23u32) != 0 <==> d & (1u32 << 23u32) != 0,
        ((d & 0x7FFF_FFFF) | 0x8000_0000) & (1u32 << i) == d & (1u32 << i),
        (d & 0x7FFF_FFFF) & (1u32 << i) == d & (1u32 << i),
        ((d & 0x7FFF_FFFF) | 0x8000_0000) & (1u32 << 31u32) != 0,
        (d & 0x7FFF_FFFF) & (1u32 << 31u32) == 0,
{
}

/// A finished channel. If its interrupt is enabled in the DMA interrupt register, it is
/// flagged there, and the DMA interrupt is raised if bit 23 lets it through; bit 31 then
/// shows that. Otherwise neither register changes.
pub proof fn law_channel_interrupt(s: BusState, ch: u32, i: u32, line: u32)
    requires
        s.hw.len() == HW_SIZE,
        ch <= 6,
        i < 31,
        line < 32,
    ensures
        ({
            let d = s.channel_done(ch as int);
            let before = le32(s.hw, 0x10F4);
            let after = le32(d.hw, 0x10F4);
            let enabled = flagged(before, (16 + ch) as u32);
            let through = flagged(before, 23);
            &&& !enabled ==> after == before && le32(d.hw, 0x1070) == le32(s.hw, 0x1070)
            &&& enabled ==> flagged(after, i) == (i == 24 + ch || flagged(before, i))
            &&& enabled ==> flagged(after, 31) == through
            &&& enabled ==> flagged(le32(d.hw, 0x1070), line) == ((line == 3 && through)
                || flagged(le32(s.hw, 0x1070), line))
            &&& d == (BusState { hw: d.hw, ..s })
        }),
{
    let at = 0x1088 + 16 * ch as int;
    let v = le32(s.hw, at) & !0x0100_0000u32;
    let h1 = put32(s.hw, at, v);
    lemma_word_write_frame(s.hw, at, v, 0x10F4);
    lemma_word_write_frame(s.hw, at, v, 0x1070);
    let before = le32(s.hw, 0x10F4);
    lemma_channel_flags(before, ch, i);
    let marked = before | (1u32 << ((24 + ch) as u32));
    let w = with_master_flag(marked);
    lemma_channel_flags(marked, ch, i);
    lemma_flag_update(before, (24 + ch) as u32, i);
    let h2 = put32(h1, 0x10F4, w);
    lemma_word_read_back(h1, 0x10F4, 0, w);
    lemma_word_write_frame(h1, 0x10F4, w, 0x1070);
    let istat = le32(s.hw, 0x1070);
    let raised = istat | (1u32 << 3u32);
    lemma_flag_update(istat, 3, line);
    lemma_word_read_back(h2, 0x1070, 0, raised);
    lemma_word_write_frame(h2, 0x1070, raised, 0x10F4);
}

} // verus!
