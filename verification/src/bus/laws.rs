//! Laws of the bus: memory gives back what was written, mirrors agree, the BIOS
//! is read-only, and how interrupts and transfers behave.

use crate::bus::dma::{
    lemma_register_parts, list_fed, node_fed, table_cleared, table_count, table_entry, table_link,
    MAX_NODES,
};
use crate::bus::state::{
    cd_scheduled, dicr_written, hw_offset, in_hardware, in_ram, in_scratchpad, master_flag,
    physical, write_fits, BusState, ISTAT,
};
use crate::cdrom::{msf_lba, CdInterrupt, CdIrqType};
use crate::cdrom::laws::law_sector_delivery;
use crate::gpu::commands::GpuModel;
use crate::gpu::status::law_interlace_toggle;
use crate::scheduler::{flagged, lemma_flag_update};
use crate::word::{le32, lemma_word_read_back, lemma_word_write_frame, put32};
use vstd::prelude::*;

verus! {

/// Main memory and the scratchpad give back what was written to them.
pub proof fn law_memory_read_back(s: BusState, addr: u32, b: u8, h: u16, w: u32)
    requires
        s.wf(),
        in_ram(physical(addr)) || in_scratchpad(physical(addr)),
    ensures
        s.byte_written(addr, b).byte(addr) == b,
        write_fits(addr, 2) ==> s.half_written(addr, h).half(addr) == h,
        write_fits(addr, 4) ==> s.word_written(addr, w).word(addr) == w,
{
    reveal(BusState::byte);
    reveal(BusState::half);
    reveal(BusState::word);
    reveal(BusState::byte_written);
    reveal(BusState::half_written);
    reveal(BusState::word_written);
    let p = physical(addr);
    if in_ram(p) {
        lemma_word_read_back(s.ram, p as int, h, w);
    } else {
        lemma_word_read_back(s.scratchpad, p - 0x1F80_0000, h, w);
    }
}

/// A write to main memory or the scratchpad changes nothing else: every other
/// byte of the two, and everything else on the bus, stays.
pub proof fn law_memory_frame(s: BusState, addr: u32, b: u8, other: u32)
    requires
        s.wf(),
        in_ram(physical(addr)) || in_scratchpad(physical(addr)),
        in_ram(physical(other)) || in_scratchpad(physical(other)),
        physical(other) != physical(addr),
    ensures
        s.byte_written(addr, b).byte(other) == s.byte(other),
        s.byte_written(addr, b) == (BusState {
            ram: s.byte_written(addr, b).ram,
            scratchpad: s.byte_written(addr, b).scratchpad,
            ..s
        }),
{
    reveal(BusState::byte);
    reveal(BusState::byte_written);
}

/// Reading memory has no effect; only reading a hardware register can have one.
pub proof fn law_memory_reads_are_pure(s: BusState, addr: u32)
    requires
        !in_hardware(physical(addr)),
    ensures
        s.byte_read(addr) == s,
        s.half_read(addr) == s,
        s.word_read(addr) == s,
{
    reveal(BusState::byte_read);
    reveal(BusState::half_read);
    reveal(BusState::word_read);
}

/// The mirrors agree: every access depends on the address only through its
/// physical part.
pub proof fn law_mirrors(s: BusState, addr: u32, mirror: u32, b: u8, h: u16, w: u32)
    requires
        physical(mirror) == physical(addr),
    ensures
        s.byte(mirror) == s.byte(addr),
        s.half(mirror) == s.half(addr),
        s.word(mirror) == s.word(addr),
        s.byte_read(mirror) == s.byte_read(addr),
        s.half_read(mirror) == s.half_read(addr),
        s.word_read(mirror) == s.word_read(addr),
        s.byte_written(mirror, b) == s.byte_written(addr, b),
        s.half_written(mirror, h) == s.half_written(addr, h),
        s.word_written(mirror, w) == s.word_written(addr, w),
{
    reveal(BusState::byte);
    reveal(BusState::half);
    reveal(BusState::word);
    reveal(BusState::byte_read);
    reveal(BusState::half_read);
    reveal(BusState::word_read);
    reveal(BusState::byte_written);
    reveal(BusState::half_written);
    reveal(BusState::word_written);
}

/// The user segment, the cached segment and the uncached segment are mirrors of
/// one another.
pub proof fn law_segments(addr: u32)
    requires
        addr < 0x2000_0000,
    ensures
        physical(addr) == addr,
        physical(addr | 0x8000_0000) == addr,
        physical(addr | 0xA000_0000) == addr,
{
    lemma_bits(addr, 0, 0);
}

/// What accesses to main memory and the scratchpad are.
proof fn lemma_memory(s: BusState, addr: u32, w: u32)
    ensures
        in_ram(physical(addr)) ==> {
            let p = physical(addr) as int;
            &&& s.byte(addr) == s.ram[p]
            &&& s.word(addr) == le32(s.ram, p)
            &&& s.word_written(addr, w) == (BusState { ram: put32(s.ram, p, w), ..s })
        },
        in_scratchpad(physical(addr)) ==> {
            let p = physical(addr) - 0x1F80_0000;
            &&& s.byte(addr) == s.scratchpad[p]
            &&& s.word(addr) == le32(s.scratchpad, p)
            &&& s.word_written(addr, w) == (BusState {
                scratchpad: put32(s.scratchpad, p, w),
                ..s
            })
        },
{
    reveal(BusState::byte);
    reveal(BusState::word);
    reveal(BusState::word_written);
}

/// A word written to main memory or the scratchpad is read back through every
/// mirror, whole and by bytes, the least significant first.
pub proof fn law_word_by_bytes(s: BusState, addr: u32, mirror: u32, w: u32)
    requires
        s.wf(),
        in_ram(physical(addr)) || in_scratchpad(physical(addr)),
        addr % 4 == 0,
        physical(mirror) == physical(addr),
    ensures
        mirror % 4 == 0,
        s.word_written(addr, w).word(mirror) == w,
        s.word_written(addr, w).byte(mirror) == w as u8,
        s.word_written(addr, w).byte((mirror + 1) as u32) == (w >> 8) as u8,
        s.word_written(addr, w).byte((mirror + 2) as u32) == (w >> 16) as u8,
        s.word_written(addr, w).byte((mirror + 3) as u32) == (w >> 24) as u8,
{
    lemma_bits(addr, 0, 0);
    lemma_bits(mirror, 0, 0);
    let t = s.word_written(addr, w);
    lemma_memory(s, addr, w);
    lemma_memory(t, mirror, 0);
    lemma_memory(t, (mirror + 1) as u32, 0);
    lemma_memory(t, (mirror + 2) as u32, 0);
    lemma_memory(t, (mirror + 3) as u32, 0);
    let p = physical(addr);
    if in_ram(p) {
        lemma_word_read_back(s.ram, p as int, 0, w);
    } else {
        lemma_word_read_back(s.scratchpad, p - 0x1F80_0000, 0, w);
    }
}

/// A word written to main memory or the scratchpad leaves every other word of the
/// two, and everything else on the bus.
pub proof fn law_word_frame(s: BusState, addr: u32, w: u32, other: u32)
    requires
        s.wf(),
        in_ram(physical(addr)) || in_scratchpad(physical(addr)),
        in_ram(physical(other)) || in_scratchpad(physical(other)),
        addr % 4 == 0,
        other % 4 == 0,
        physical(other) != physical(addr),
    ensures
        s.word_written(addr, w).word(other) == s.word(other),
        s.word_written(addr, w) == (BusState {
            ram: s.word_written(addr, w).ram,
            scratchpad: s.word_written(addr, w).scratchpad,
            ..s
        }),
{
    lemma_bits(addr, 0, 0);
    lemma_bits(other, 0, 0);
    lemma_memory(s, addr, w);
    lemma_memory(s, other, 0);
    lemma_memory(s.word_written(addr, w), other, 0);
    let (p, q) = (physical(addr), physical(other));
    if in_ram(p) && in_ram(q) {
        lemma_word_write_frame(s.ram, p as int, w, q as int);
    } else if in_scratchpad(p) && in_scratchpad(q) {
        lemma_word_write_frame(s.scratchpad, p - 0x1F80_0000, w, q - 0x1F80_0000);
    }
}

/// No transfer changes the BIOS.
proof fn lemma_dma_keeps_bios(s: BusState, ch: int, chcr: u32)
    ensures
        s.dma_run(ch, chcr).bios == s.bios,
{
    reveal(BusState::dma_gpu);
    reveal(BusState::dma_cdrom);
    reveal(BusState::dma_spu);
    reveal(BusState::dma_otc);
}

/// No write whatsoever changes the BIOS, not even one that starts a transfer.
pub proof fn law_bios_is_read_only(s: BusState, addr: u32, b: u8, h: u16, w: u32)
    ensures
        s.byte_written(addr, b).bios == s.bios,
        s.half_written(addr, h).bios == s.bios,
        s.word_written(addr, w).bios == s.bios,
{
    reveal(BusState::byte_written);
    reveal(BusState::half_written);
    reveal(BusState::word_written);
    let off = hw_offset(physical(addr));
    let t = s.with_reg32(off, w);
    lemma_dma_keeps_bios(t, (off - 0x1080) / 0x10, w);
}

/// Writes outside main memory, the scratchpad and the hardware registers are
/// dropped.
pub proof fn law_unmapped_writes(s: BusState, addr: u32, b: u8, h: u16, w: u32)
    requires
        !in_ram(physical(addr)),
        !in_scratchpad(physical(addr)),
        !in_hardware(physical(addr)),
    ensures
        s.byte_written(addr, b) == s,
        s.half_written(addr, h) == s,
        s.word_written(addr, w) == s,
{
    reveal(BusState::byte_written);
    reveal(BusState::half_written);
    reveal(BusState::word_written);
}

/// Raising an interrupt line sets its bit of the interrupt status and no other.
pub proof fn law_irq_set(s: BusState, bit: u32, other: u32)
    requires
        s.wf(),
        bit < 32,
        other < 32,
    ensures
        flagged(s.irq_set(bit).istat(), other) <==> other == bit || flagged(s.istat(), other),
{
    lemma_word_read_back(s.hw, ISTAT as int, 0, s.istat() | (1u32 << bit));
    lemma_flag_update(s.istat(), bit, other);
}

/// Writing the interrupt status acknowledges: exactly the interrupts whose bit
/// in the value is zero are cleared.
pub proof fn law_istat_acknowledge(s: BusState, value: u32, bit: u32)
    requires
        s.wf(),
        bit < 32,
    ensures
        flagged(s.word_written(0x1F80_1070, value).istat(), bit) <==> flagged(s.istat(), bit)
            && flagged(value, bit),
{
    reveal(BusState::word_written);
    let istat = s.istat();
    lemma_bits(istat, value, bit);
    lemma_word_read_back(s.hw, ISTAT as int, 0, istat & value);
}

/// Facts about the bits of registers and addresses.
proof fn lemma_bits(a: u32, v: u32, bit: u32)
    by (bit_vector)
    requires
        bit < 32,
    ensures
        0x1F80_1070u32 & 0x1FFF_FFFF == 0x1F80_1070u32,
        0x200u32 & 0xFFFF == 0x200u32,
        0x00FF_FFFFu32 & 0x00FF_FFFF == 0x00FF_FFFFu32,
        (a & v) & (1u32 << bit) != 0 <==> a & (1u32 << bit) != 0 && v & (1u32 << bit) != 0,
        v & (1u32 << 0u32) != 0 ==> v != 0 && v & 1 != 0 && (a | v) & (1u32 << 0u32) != 0,
        a < 0x2000_0000 ==> a & 0x1FFF_FFFF == a && (a | 0x8000_0000) & 0x1FFF_FFFF == a && (a
            | 0xA000_0000) & 0x1FFF_FFFF == a,
        (a & 0x1FFF_FFFF) % 4 == a % 4,
        a % 4 == 0 ==> ((a + 1) as u32) & 0x1FFF_FFFF == (a & 0x1FFF_FFFF) + 1 && ((a + 2) as u32)
            & 0x1FFF_FFFF == (a & 0x1FFF_FFFF) + 2 && ((a + 3) as u32) & 0x1FFF_FFFF == (a
            & 0x1FFF_FFFF) + 3,
        a < 0x100_0000 ==> a >> 24u32 == 0,
        a < 0x20_0000 ==> a & 0x00FF_FFFF == a,
        a < 0x20_0000 && a % 4 == 0 ==> a & 0x1F_FFFC == a,
{
}

/// Writing the DMA interrupt register clears the flags whose bit in the value is
/// one, takes over the writable bits, and leaves the master flag set exactly if
/// the register raises the interrupt.
pub proof fn law_dicr(before: u32, value: u32)
    ensures
        dicr_written(before, value) & 0x7F00_0000 == before & 0x7F00_0000 & !value,
        dicr_written(before, value) & 0x00FF_803F == value & 0x00FF_803F,
        dicr_written(before, value) & 0x8000_0000 != 0 <==> master_flag(
            dicr_written(before, value),
        ),
{
    let d = (before & 0x7F00_0000 & !(value & 0x7F00_0000)) | (value & 0x00FF_803F);
    let r = dicr_written(before, value);
    let m = master_flag(d);
    assert(r & 0x7F00_0000 == before & 0x7F00_0000 & !value && r & 0x00FF_803F == value
        & 0x00FF_803F && (r & 0x8000_0000 != 0 <==> m) && r & (1u32 << 23u32) == d & (1u32
        << 23u32) && (r >> 24u32) & 0x7F == (d >> 24u32) & 0x7F && (r >> 16u32) & 0x7F == (d
        >> 16u32) & 0x7F) by (bit_vector)
        requires
            d == (before & 0x7F00_0000 & !(value & 0x7F00_0000)) | (value & 0x00FF_803F),
            r == (if m {
                (d & 0x7FFF_FFFF) | 0x8000_0000
            } else {
                d & 0x7FFF_FFFF
            }),
    ;
}

/// The entries of an ordering table are words of main memory, all different.
proof fn lemma_table_entries(base: u32, i: int, j: int)
    requires
        base % 4 == 0,
        base < 0x20_0000,
        0 <= i < 0x1_0000,
        0 <= j < 0x1_0000,
        i != j,
    ensures
        0 <= table_entry(base, i) <= 0x1F_FFFC,
        table_entry(base, i) % 4 == 0,
        table_entry(base, i) + 4 <= table_entry(base, j) || table_entry(base, j) + 4
            <= table_entry(base, i),
{
}

proof fn lemma_table_link(ram: Seq<u8>, base: u32, count: u32, n: nat, i: int)
    requires
        ram.len() == 0x20_0000,
        base % 4 == 0,
        base < 0x20_0000,
        0 <= i < n <= count <= 0x1_0000,
    ensures
        table_cleared(ram, base, count, n).len() == 0x20_0000,
        le32(table_cleared(ram, base, count, n), table_entry(base, i)) == table_link(
            base,
            count,
            i,
        ),
    decreases n,
{
    lemma_table_length(ram, base, count, n);
    lemma_table_length(ram, base, count, (n - 1) as nat);
    let before = table_cleared(ram, base, count, (n - 1) as nat);
    let last = n - 1;
    if i == last {
        assert(0 <= table_entry(base, last) <= 0x1F_FFFC);
        lemma_word_read_back(
            before,
            table_entry(base, last),
            0,
            table_link(base, count, last),
        );
    } else {
        lemma_table_link(ram, base, count, (n - 1) as nat, i);
        lemma_table_entries(base, i, last);
        lemma_table_entries(base, last, i);
        lemma_word_write_frame(
            before,
            table_entry(base, last),
            table_link(base, count, last),
            table_entry(base, i),
        );
    }
}

proof fn lemma_table_length(ram: Seq<u8>, base: u32, count: u32, n: nat)
    requires
        ram.len() == 0x20_0000,
        base % 4 == 0,
        base < 0x20_0000,
    ensures
        table_cleared(ram, base, count, n).len() == ram.len(),
    decreases n,
{
    if n > 0 {
        lemma_table_length(ram, base, count, (n - 1) as nat);
        assert(0 <= table_entry(base, n - 1) <= 0x1F_FFFC);
    }
}

/// A cleared ordering table is a chain: each entry names the one below it, and
/// the lowest holds the end marker.
pub proof fn law_ordering_table(s: BusState, madr: u32, bcr: u32, i: int)
    requires
        s.wf(),
        0 <= i < table_count(bcr),
    ensures
        ({
            let base = madr & 0x1F_FFFC;
            let count = table_count(bcr);
            le32(s.dma_otc(madr, bcr).ram, table_entry(base, i)) == table_link(base, count, i)
        }),
{
    reveal(BusState::dma_otc);
    let count = table_count(bcr);
    lemma_register_parts(madr);
    lemma_register_parts(bcr);
    lemma_table_link(s.ram, madr & 0x1F_FFFC, count, count as nat, i);
}

/// Whether byte `k` of main memory belongs to entry `i` of an ordering table.
pub open spec fn in_entry(base: u32, i: int, k: int) -> bool {
    table_entry(base, i) <= k < table_entry(base, i) + 4
}

proof fn lemma_table_frame(ram: Seq<u8>, base: u32, count: u32, n: nat, k: int)
    requires
        ram.len() == 0x20_0000,
        base % 4 == 0,
        base < 0x20_0000,
        0 <= k < 0x20_0000,
        forall|i: int| 0 <= i < n ==> !#[trigger] in_entry(base, i, k),
    ensures
        table_cleared(ram, base, count, n)[k] == ram[k],
    decreases n,
{
    if n > 0 {
        lemma_table_length(ram, base, count, (n - 1) as nat);
        lemma_table_frame(ram, base, count, (n - 1) as nat, k);
        assert(!in_entry(base, n - 1, k));
        assert(0 <= table_entry(base, n - 1) <= 0x1F_FFFC);
    }
}

/// Clearing an ordering table leaves every byte of main memory outside the table,
/// and everything else on the bus but the hardware registers in which the channel
/// reports its end.
pub proof fn law_ordering_table_frame(s: BusState, madr: u32, bcr: u32, k: int)
    requires
        s.wf(),
        0 <= k < 0x20_0000,
        forall|i: int|
            0 <= i < table_count(bcr) ==> !#[trigger] in_entry(madr & 0x1F_FFFC, i, k),
    ensures
        s.dma_otc(madr, bcr).ram[k] == s.ram[k],
        s.dma_otc(madr, bcr) == (BusState {
            ram: s.dma_otc(madr, bcr).ram,
            hw: s.dma_otc(madr, bcr).hw,
            ..s
        }),
{
    reveal(BusState::dma_otc);
    let count = table_count(bcr);
    lemma_register_parts(madr);
    lemma_register_parts(bcr);
    lemma_table_frame(s.ram, madr & 0x1F_FFFC, count, count as nat, k);
}

/// A cleared ordering table sends nothing to the graphics processor, however it
/// is reached.
proof fn lemma_empty_list(gpu: GpuModel, ram: Seq<u8>, base: u32, count: u32, i: int, left: nat)
    requires
        ram.len() == 0x20_0000,
        base % 4 == 0,
        base < 0x20_0000,
        0 <= i < count <= 0x1_0000,
        left >= count - i,
    ensures
        list_fed(
            gpu,
            table_cleared(ram, base, count, count as nat),
            table_entry(base, i) as u32,
            left,
        ) == gpu,
    decreases left,
{
    let cleared = table_cleared(ram, base, count, count as nat);
    lemma_table_link(ram, base, count, count as nat, i);
    assert(0 <= table_entry(base, i) < 0x20_0000);
    let header = table_link(base, count, i);
    assert(node_fed(gpu, cleared, table_entry(base, i) as u32, 0) == gpu);
    lemma_bits(header, 0, 0);
    if i < count - 1 {
        assert(0 <= table_entry(base, i + 1) < 0x20_0000 && table_entry(base, i + 1) % 4 == 0);
        lemma_empty_list(gpu, ram, base, count, i + 1, (left - 1) as nat);
    }
}

/// A frame that draws nothing: clearing an ordering table and then sending it as
/// a list leaves the graphics processor as it was.
pub proof fn law_empty_table_draws_nothing(s: BusState, madr: u32, bcr: u32, chcr: u32)
    requires
        s.wf(),
        table_count(bcr) > 0,
        (chcr >> 9u32) & 3 == 2,
        chcr & 1 == 1,
    ensures
        s.dma_otc(madr, bcr).dma_gpu(madr, 0, chcr).gpu == s.gpu,
{
    reveal(BusState::dma_otc);
    reveal(BusState::dma_gpu);
    let base = madr & 0x1F_FFFC;
    let count = table_count(bcr);
    lemma_register_parts(madr);
    lemma_register_parts(bcr);
    assert(table_entry(base, 0) == base);
    lemma_empty_list(s.gpu, s.ram, base, count, 0, MAX_NODES as nat);
}

/// The disc transfer moves nothing before the host has asked for the sector.
pub proof fn law_cdrom_transfer_waits(s: BusState, madr: u32, bcr: u32, chcr: u32)
    requires
        !s.cdrom.read,
    ensures
        s.dma_cdrom(madr, bcr, chcr).ram == s.ram,
        s.dma_cdrom(madr, bcr, chcr).cdrom == s.cdrom,
{
    reveal(BusState::dma_cdrom);
}

/// From disc to memory: once a sector has been read and the host has asked for
/// it, a transfer of 2048 bytes puts its user data into main memory, and the
/// sector is used up.
pub proof fn law_sector_reaches_memory(s: BusState, madr: u32, i: int)
    requires
        s.wf(),
        s.cdrom.reading,
        s.cdrom.irq == 0,
        s.cdrom.stat == 0,
        s.cdrom.ctrl & 3 == 0,
        s.cdrom.mode & 0x30 == 0,
        s.cdrom.sector_offset() + 2352 <= s.cdrom.disc.len(),
        0 <= i < 2048,
    ensures
        ({
            let asked = BusState {
                cdrom: s.cdrom.sector_read().port_written(3, 0x80),
                ..s
            };
            let moved = asked.dma_cdrom(madr, 0x200, 0x1100_0000);
            &&& Some(moved.ram[((madr & 0x1F_FFFC) + i) % 0x20_0000]) == Some(
                s.cdrom.user_data(msf_lba(s.cdrom.set_sector_play))->0[i],
            )
            &&& !moved.cdrom.read
        }),
{
    reveal(BusState::dma_cdrom);
    law_sector_delivery(s.cdrom);
    lemma_register_parts(madr);
    let asked = BusState { cdrom: s.cdrom.sector_read().port_written(3, 0x80), ..s };
    let base = (madr & 0x1F_FFFC) as int;
    let p = (base + i) % 0x20_0000;
    assert((p - base) % 0x20_0000 == i);
    lemma_bits(0, 0, 0);
    assert(asked.cdrom.bytes_taken(0).read);
}

/// A vertical blank reaches the processor: its interrupt is pending afterwards,
/// and the field that the graphics status shows has changed.
pub proof fn law_vertical_blank(s: BusState)
    requires
        s.wf(),
        flagged(s.timers.pending_irqs, 0),
    ensures
        flagged(s.timers_drained().istat(), 0),
        s.timers_drained().gpu.status.raw >> 31u32 != s.gpu.status.raw >> 31u32,
        s.timers_drained().timers.pending_irqs == 0,
{
    let irqs = s.timers.pending_irqs;
    let istat = s.istat();
    lemma_bits(istat, irqs, 0);
    lemma_word_read_back(s.hw, ISTAT as int, 0, istat | irqs);
    law_interlace_toggle(s.gpu.status.raw);
}

/// Where no event has fired, nothing happens.
pub proof fn law_no_events(s: BusState, n: nat)
    requires
        n <= 16,
    ensures
        s.events(0, n) == s,
    decreases n,
{
    reveal(BusState::events);
    if n > 0 {
        law_no_events(s, (n - 1) as nat);
        let i = (n - 1) as u32;
        lemma_flag_update(0, i, i);
    }
}

/// A command to the CD-ROM is answered: writing it schedules the response, 0x800
/// cycles later.
pub proof fn law_command_scheduled(s: BusState, command: u8)
    requires
        s.wf(),
        s.timely(),
        s.cdrom.ctrl & 3 == 0,
        s.cdrom.pending.len() == 0,
    ensures
        ({
            let t = s.hw_byte_written(0x1801, command);
            &&& flagged(t.scheduler.interrupt_flags, 2)
            &&& t.scheduler.int_targets[2] == s.last_cycle + 0x800
            &&& t.cdrom.pending.len() == 0
        }),
{
    let c = s.cdrom.port_written(1, command);
    let event = CdInterrupt {
        irq_type: CdIrqType::Command,
        delay: 0x800,
    };
    assert(s.cdrom.pending =~= Seq::empty());
    assert(c.pending =~= seq![event]);
    assert(c.pending.drop_last() =~= Seq::empty());
    reveal_with_fuel(cd_scheduled, 2);
    lemma_flag_update(s.scheduler.interrupt_flags, 2, 2);
}

} // verus!
