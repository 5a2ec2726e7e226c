//! The GPU status register.

use crate::scheduler::lemma_flag_update;
use vstd::prelude::*;

verus! {

/// GPUSTAT, read from 0x1F801814.
pub struct GpuStatus {
    pub raw: u32,
}

/// `raw` with bit `bit` set to `val`.
pub open spec fn bit_set_to(raw: u32, bit: u32, val: bool) -> u32 {
    if val {
        raw | (1u32 << bit)
    } else {
        raw & !(1u32 << bit)
    }
}

/// GPUSTAT after a reset: ready for a command word and for a DMA block, DMA
/// off, display disabled.
pub const GPUSTAT_RESET: u32 = 0x1480_2000;

impl GpuStatus {
    /// The register after a reset.
    pub open spec fn initial() -> GpuStatus {
        GpuStatus { raw: GPUSTAT_RESET }
    }

    /// The register with the two DMA direction bits (29 and 30) set from `dir`.
    pub open spec fn with_dma_direction(self, dir: u32) -> GpuStatus {
        GpuStatus { raw: (self.raw & !0x6000_0000u32) | ((dir & 3) << 29) }
    }

    /// The register after a reset.
    pub fn new() -> (r: Self)
        ensures
            r == GpuStatus::initial(),
    {
        GpuStatus { raw: GPUSTAT_RESET }
    }

    /// The register's value.
    pub fn read(&self) -> (r: u32)
        ensures
            r == self.raw,
    {
        self.raw
    }

    /// Sets one bit.
    pub fn set_bit(&mut self, bit: u32, val: bool)
        requires
            bit < 32,
        ensures
            final(self).raw == bit_set_to(old(self).raw, bit, val),
    {
        if val {
            self.raw = self.raw | (1u32 << bit);
        } else {
            self.raw = self.raw & !(1u32 << bit);
        }
    }

    /// Sets the DMA direction field.
    pub fn set_dma_direction(&mut self, dir: u32)
        ensures
            *final(self) == old(self).with_dma_direction(dir),
    {
        self.raw = (self.raw & !0x6000_0000u32) | ((dir & 3) << 29);
    }

    /// Sets the display-disable bit.
    pub fn set_display_disabled(&mut self, disabled: bool)
        ensures
            final(self).raw == bit_set_to(old(self).raw, 23, disabled),
    {
        self.set_bit(23, disabled);
    }

    /// Sets the interlace field bit.
    pub fn set_interlace_field(&mut self, odd: bool)
        ensures
            final(self).raw == bit_set_to(old(self).raw, 31, odd),
    {
        self.set_bit(31, odd);
    }

    /// Flips the interlace field bit. Called once per vertical blank: the BIOS
    /// waits for this bit to change between frames.
    pub fn toggle_interlace_field(&mut self)
        ensures
            final(self).raw == old(self).raw ^ 0x8000_0000u32,
    {
        self.raw = self.raw ^ 0x8000_0000u32;
    }
}

/// Setting a bit makes that bit read back as set to `val` and leaves every
/// other bit as it was.
pub proof fn law_set_bit(raw: u32, bit: u32, val: bool, other: u32)
    requires
        bit < 32,
        other < 32,
    ensures
        (bit_set_to(raw, bit, val) & (1u32 << other) != 0) == (if other == bit {
            val
        } else {
            raw & (1u32 << other) != 0
        }),
{
    lemma_flag_update(raw, bit, other);
}

/// The DMA direction field reads back as written, and no other bit changes.
pub proof fn law_dma_direction(s: GpuStatus, dir: u32)
    ensures
        (s.with_dma_direction(dir).raw >> 29) & 3 == dir & 3,
        s.with_dma_direction(dir).raw & !0x6000_0000u32 == s.raw & !0x6000_0000u32,
{
    crate::bits::lemma_masked_of(s.raw, dir);
}

/// The interlace field changes at every toggle and comes back after two.
pub proof fn law_interlace_toggle(raw: u32)
    ensures
        (raw ^ 0x8000_0000u32) >> 31 != raw >> 31,
        (raw ^ 0x8000_0000u32) ^ 0x8000_0000u32 == raw,
        (raw ^ 0x8000_0000u32) & 0x7FFF_FFFFu32 == raw & 0x7FFF_FFFFu32,
{
    crate::bits::lemma_parts_of(raw);
}

} // verus!
