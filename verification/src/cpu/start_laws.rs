//! Laws of the processor's start of a game, of its instruction cache and of its trace.

use crate::bits::{lemma_fields_of, lemma_masked_of};
use crate::bus::boot::BootImage;
use crate::cpu::trace::TraceRing;
use crate::cpu::Cpu;
use crate::scheduler::{flagged, lemma_flag_update};
use vstd::prelude::*;

verus! {

/// A game starts at its entry, with its global pointer, if it has one, in register 28 and
/// its stack pointer in registers 29 and 30. Coprocessor 2 is usable. The other registers
/// stay, and nothing that was under way before is left.
pub proof fn law_game_registers(c: Cpu, image: BootImage, i: int, k: u32)
    requires
        0 <= i < 32,
        k < 32,
    ensures
        ({
            let d = c.game_started(image);
            &&& d.regs.pc == image.entry
            &&& d.regs.gpr[i] == (if i == 29 || i == 30 {
                image.sp
            } else if i == 28 && image.gp != 0 {
                image.gp
            } else {
                c.regs.gpr[i]
            })
            &&& flagged(d.regs.cp0[12], k) == (k == 30 || flagged(c.regs.cp0[12], k))
            &&& !d.in_delay_slot && !d.next_is_delay_slot
            &&& !d.delayed_load[0].active && !d.delayed_load[1].active
            &&& d.regs.hi == c.regs.hi && d.regs.lo == c.regs.lo && d.regs.cycle == c.regs.cycle
        }),
{
    let s = c.regs.cp0[12];
    lemma_flag_update(s, 30, k);
    lemma_masked_of(s, 0);
}

/// A word written to the instruction cache is in the entry that bits 2 to 11 of its
/// address choose, under the low 24 bits of the address; the other entries stay.
pub proof fn law_cache_entry(c: Cpu, addr: u32, value: u32, i: int)
    requires
        0 <= i < 1024,
    ensures
        ({
            let d = c.cache_written(addr, value);
            let entry = addr as int / 4 % 1024;
            &&& d.icache_code[i] == (if i == entry {
                value
            } else {
                c.icache_code[i]
            })
            &&& d.icache_addr[i] == (if i == entry {
                (addr as int % 0x100_0000) as u32
            } else {
                c.icache_addr[i]
            })
            &&& d.regs == c.regs
        }),
{
    assert(addr & 0x00FF_FFFF == addr as int % 0x100_0000) by {
        lemma_fields_of(addr);
    }
    assert(addr as int % 0x1000 / 4 == addr as int / 4 % 1024);
}

/// An invalidated line is the four entries of a block of sixteen bytes; after that none of
/// its addresses is found, as no address has more than 24 bits.
pub proof fn law_cache_line(c: Cpu, d: Cpu, addr: u32, i: int)
    requires
        c.line_invalidated(addr, d),
        0 <= i < 1024,
    ensures
        i / 4 == addr as int / 16 % 256 ==> d.icache_addr[i] >= 0x100_0000,
        i / 4 != addr as int / 16 % 256 ==> d.icache_addr[i] == c.icache_addr[i],
        d.icache_code == c.icache_code,
        d.regs == c.regs,
{
    assert(addr as int % 0x1000 / 4 / 4 == addr as int / 16 % 256);
}

/// A full ring is listed from its oldest entry to its newest, which stands before it.
pub proof fn law_trace_order(r: TraceRing, n: nat, i: int)
    requires
        0 <= i < n <= 64,
        forall|k: int| 0 <= k < 64 ==> r.entries[k].pc != 0,
    ensures
        r.listed(n).len() == n,
        r.listed(n)[i] == r.entries[(r.pos + i) % 64],
    decreases n,
{
    lemma_listed(r, (n - 1) as nat);
    if i < n - 1 {
        law_trace_order(r, (n - 1) as nat, i);
    }
}

proof fn lemma_listed(r: TraceRing, n: nat)
    requires
        n <= 64,
        forall|k: int| 0 <= k < 64 ==> r.entries[k].pc != 0,
    ensures
        r.listed(n).len() == n,
    decreases n,
{
    if n > 0 {
        lemma_listed(r, (n - 1) as nat);
        assert(r.entries[(r.pos + n - 1) % 64].pc != 0);
    }
}

} // verus!
