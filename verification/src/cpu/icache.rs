//! The instruction cache. Instructions are always fetched from the bus; the
//! cache only keeps what is written to it.

use crate::bus::Bus;
use crate::bus::state::read_fits;
use crate::cpu::Cpu;
use vstd::array::spec_array_update;
use vstd::prelude::*;

verus! {

/// The cache entry of an address.
pub open spec fn cache_entry(addr: u32) -> int {
    addr as int % 0x1000 / 4
}

impl Cpu {
    /// The processor with a word in the instruction cache.
    pub open spec fn cache_written(self, addr: u32, value: u32) -> Cpu {
        Cpu {
            icache_addr: spec_array_update(
                self.icache_addr,
                cache_entry(addr),
                addr & 0x00FF_FFFF,
            ),
            icache_code: spec_array_update(self.icache_code, cache_entry(addr), value),
            ..self
        }
    }

    /// Whether `after` is the processor with the cache line of `addr`, four
    /// entries, marked as invalid.
    pub open spec fn line_invalidated(self, addr: u32, after: Cpu) -> bool {
        &&& after == (Cpu { icache_addr: after.icache_addr, ..self })
        &&& forall|i: int|
            0 <= i < 1024 ==> #[trigger] after.icache_addr[i] == (if i / 4 == cache_entry(addr)
                / 4 {
                0xFFFF_FFFF
            } else {
                self.icache_addr[i]
            })
    }

    /// Fetches an instruction.
    pub fn read_icache(&mut self, pc: u32, bus: &mut Bus) -> (code: u32)
        requires
            old(bus).wf(),
            read_fits(pc, 4),
        ensures
            *final(self) == *old(self),
            final(bus).wf(),
            code == old(bus)@.word(pc),
            final(bus)@ == old(bus)@.word_read(pc),
            final(bus)@.last_cycle == old(bus)@.last_cycle,
    {
        bus.read32(pc)
    }

    /// Writes a word to the instruction cache, which a program does while the
    /// cache is isolated.
    pub fn write_icache(&mut self, addr: u32, value: u32)
        ensures
            *final(self) == old(self).cache_written(addr, value),
    {
        proof {
            lemma_cache_entry(addr);
        }
        let entry: usize = ((addr & 0xFFF) >> 2u32) as usize;
        self.icache_addr[entry] = addr & 0x00FF_FFFF;
        self.icache_code[entry] = value;
    }

    /// Marks a cache line as invalid.
    pub fn invalidate_icache_line(&mut self, addr: u32)
        ensures
            old(self).line_invalidated(addr, *final(self)),
    {
        proof {
            lemma_cache_entry(addr);
        }
        let line: usize = ((addr & 0xFF0) >> 2u32) as usize;
        let mut i: usize = 0;
        while i < 4
            invariant
                i <= 4,
                line == cache_entry(addr) / 4 * 4,
                line + 4 <= 1024,
                *self == (Cpu { icache_addr: self.icache_addr, ..*old(self) }),
                forall|k: int|
                    0 <= k < 1024 ==> #[trigger] self.icache_addr[k] == (if line <= k < line + i {
                        0xFFFF_FFFF
                    } else {
                        old(self).icache_addr[k]
                    }),
            decreases 4 - i,
        {
            self.icache_addr[line + i] = 0xFFFF_FFFF;
            i += 1;
        }
    }
}

proof fn lemma_cache_entry(addr: u32)
    ensures
        (addr & 0xFFF) >> 2u32 == addr % 0x1000 / 4,
        (addr & 0xFF0) >> 2u32 == addr % 0x1000 / 4 / 4 * 4,
{
    crate::bits::lemma_parts_of(addr);
}

} // verus!
