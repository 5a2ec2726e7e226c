//! Direct memory access: the channels' transfers between main memory and the
//! devices.

use crate::bus::Bus;
use crate::bus::state::{master_flag, with_master_flag, BusState, DICR, DPCR};
use crate::cdrom::DRQSTS;
use crate::gpu::commands::GpuModel;
use crate::word::{le16, le32, put16, put32, read_le16, read_le32, write_le16, write_le32};
use vstd::prelude::*;

verus! {

/// The base of a channel's registers.
pub open spec fn channel_base(ch: int) -> u32 {
    (0x1080 + ch * 0x10) as u32
}

/// The address of word `i` of a block that starts at `madr`.
pub open spec fn block_word(madr: u32, i: nat) -> int {
    if i == 0 {
        madr as int % 0x20_0000
    } else {
        (madr + 4 * i) / 4 * 4 % 0x20_0000
    }
}

/// The number of words in a block transfer; a zero size or count stands for
/// 0x10000, and the product wraps.
pub open spec fn block_words(bcr: u32) -> u32 {
    let size: u32 = if bcr & 0xFFFF == 0 {
        0x10000
    } else {
        bcr & 0xFFFF
    };
    let count: u32 = if bcr >> 16u32 == 0 {
        0x10000
    } else {
        bcr >> 16u32
    };
    count.wrapping_mul(size)
}

/// The graphics processor after the first `n` words of a block.
pub open spec fn block_fed(gpu: GpuModel, ram: Seq<u8>, madr: u32, n: nat) -> GpuModel
    decreases n,
{
    if n == 0 {
        gpu
    } else {
        block_fed(gpu, ram, madr, (n - 1) as nat).gp0(
            le32(ram, block_word(madr, (n - 1) as nat)),
        )
    }
}

/// The graphics processor and main memory after the first `n` words read back.
pub open spec fn block_taken(gpu: GpuModel, ram: Seq<u8>, madr: u32, n: nat) -> (
    GpuModel,
    Seq<u8>,
)
    decreases n,
{
    if n == 0 {
        (gpu, ram)
    } else {
        let (g, r) = block_taken(gpu, ram, madr, (n - 1) as nat);
        (
            g.data_read(),
            put32(r, block_word(madr, (n - 1) as nat), g.data_word()),
        )
    }
}

/// The graphics processor after the first `n` words of the list node at `addr`.
pub open spec fn node_fed(gpu: GpuModel, ram: Seq<u8>, addr: u32, n: nat) -> GpuModel
    decreases n,
{
    if n == 0 {
        gpu
    } else {
        node_fed(gpu, ram, addr, (n - 1) as nat).gp0(
            le32(ram, (addr + 4 * n) % 0x20_0000),
        )
    }
}

/// The graphics processor after the linked list at `addr`, of at most `left`
/// nodes: each node's words, then on to the node its header names, up to the end
/// marker.
pub open spec fn list_fed(gpu: GpuModel, ram: Seq<u8>, addr: u32, left: nat) -> GpuModel
    decreases left,
{
    if left == 0 {
        gpu
    } else {
        let header = le32(ram, addr as int);
        let g = node_fed(gpu, ram, addr, (header >> 24u32) as nat);
        if header & 0x00FF_FFFF == 0x00FF_FFFF {
            g
        } else {
            list_fed(g, ram, header & 0x1F_FFFC, (left - 1) as nat)
        }
    }
}

/// The most nodes that are followed in a linked list.
pub const MAX_NODES: u32 = 0x20_0001;

/// Main memory with `data` stored from `base` on, wrapping at its end.
pub open spec fn ram_filled(ram: Seq<u8>, base: int, data: Seq<u8>) -> Seq<u8> {
    Seq::new(
        ram.len(),
        |p: int|
            {
                let k = (p - base) % 0x20_0000;
                if k < data.len() {
                    data[k]
                } else {
                    ram[p]
                }
            },
    )
}

/// The halfwords of main memory from `madr` on.
pub open spec fn ram_halves(ram: Seq<u8>, madr: u32, n: nat) -> Seq<u16> {
    Seq::new(n, |i: int| le16(ram, (madr + 2 * i) % 0x20_0000))
}

/// Main memory with the first `n` halfwords of `data` stored from `madr` on.
pub open spec fn halves_stored(ram: Seq<u8>, madr: u32, data: Seq<u16>, n: nat) -> Seq<u8>
    decreases n,
{
    if n == 0 {
        ram
    } else {
        put16(
            halves_stored(ram, madr, data, (n - 1) as nat),
            (madr + 2 * (n - 1)) % 0x20_0000,
            data[n - 1],
        )
    }
}

/// The halfwords in a transfer to or from sound memory; the product wraps.
pub open spec fn spu_halves(bcr: u32) -> u32 {
    (bcr >> 16u32).wrapping_mul(bcr & 0xFFFF).wrapping_mul(2)
}

/// The address of entry `i` of an ordering table whose last entry is at `base`.
pub open spec fn table_entry(base: u32, i: int) -> int {
    (base - 4 * i) % 0x20_0000
}

/// What entry `i` of an ordering table of `count` entries holds: the entry below
/// it, or the end marker.
pub open spec fn table_link(base: u32, count: u32, i: int) -> u32 {
    if i == count - 1 {
        0x00FF_FFFF
    } else {
        table_entry(base, i + 1) as u32
    }
}

/// Main memory with the first `n` entries of an ordering table written.
pub open spec fn table_cleared(ram: Seq<u8>, base: u32, count: u32, n: nat) -> Seq<u8>
    decreases n,
{
    if n == 0 {
        ram
    } else {
        put32(
            table_cleared(ram, base, count, (n - 1) as nat),
            table_entry(base, n - 1),
            table_link(base, count, n - 1),
        )
    }
}

pub open spec fn table_count(bcr: u32) -> u32 {
    if bcr == 0 {
        0x10000
    } else {
        bcr & 0xFFFF
    }
}

impl BusState {
    /// The bus after a channel has finished: its trigger is cleared, and if its
    /// interrupt is enabled, it is flagged, which may raise the DMA interrupt.
    pub open spec fn channel_done(self, ch: int) -> BusState {
        let chcr = (channel_base(ch) + 8) as u32;
        let s = self.with_reg32(chcr, self.reg32(chcr) & !0x0100_0000u32);
        let dicr = s.reg32(DICR);
        if (dicr >> ((16 + ch) as u32)) & 1 != 0 {
            let flagged = dicr | (1u32 << ((24 + ch) as u32));
            let t = s.with_reg32(DICR, with_master_flag(flagged));
            if master_flag(flagged) {
                t.irq_set(3)
            } else {
                t
            }
        } else {
            s
        }
    }

    /// The bus after a graphics transfer: a block in either direction, or a
    /// linked list of commands.
    #[verifier::opaque]
    pub open spec fn dma_gpu(self, madr: u32, bcr: u32, chcr: u32) -> BusState {
        let mode = (chcr >> 9u32) & 3;
        let to_gpu = chcr & 1 == 1;
        if mode == 1 {
            let n = block_words(bcr) as nat;
            (if to_gpu {
                BusState { gpu: block_fed(self.gpu, self.ram, madr, n), ..self }
            } else {
                let (gpu, ram) = block_taken(self.gpu, self.ram, madr, n);
                BusState { gpu, ram, ..self }
            }).channel_done(2)
        } else if mode == 2 {
            if to_gpu {
                (BusState {
                    gpu: list_fed(self.gpu, self.ram, madr & 0x1F_FFFC, MAX_NODES as nat),
                    ..self
                }).channel_done(2)
            } else {
                self
            }
        } else {
            self.channel_done(2)
        }
    }

    /// The bus after a CD-ROM transfer. It moves data only once the host has
    /// asked for the sector.
    #[verifier::opaque]
    pub open spec fn dma_cdrom(self, madr: u32, bcr: u32, chcr: u32) -> BusState {
        let known = chcr == 0x1100_0000 || chcr == 0x1140_0100;
        (if known && self.cdrom.read {
            let n: nat = if bcr & 0xFFFF == 0 {
                2048
            } else {
                ((bcr & 0xFFFF) * 4) as nat
            };
            BusState {
                ram: ram_filled(self.ram, (madr & 0x1F_FFFC) as int, self.cdrom.data_bytes(n)),
                cdrom: self.cdrom.bytes_taken(n),
                ..self
            }
        } else {
            self
        }).channel_done(3)
    }

    /// The bus after a sound transfer, with the channel's registers moved on.
    #[verifier::opaque]
    pub open spec fn dma_spu(self, madr: u32, bcr: u32, chcr: u32) -> BusState {
        let n = spu_halves(bcr) as nat;
        let s = if chcr == 0x0100_0201 {
            BusState { spu: self.spu.dma_written(ram_halves(self.ram, madr, n)), ..self }
        } else if chcr == 0x0100_0200 {
            BusState {
                ram: halves_stored(self.ram, madr, self.spu.dma_words(n), n),
                spu: self.spu.dma_taken(n),
                ..self
            }
        } else {
            self
        };
        let count: u32 = if bcr >> 16u32 == 0 {
            0x10000
        } else {
            bcr >> 16u32
        };
        let words = count.wrapping_mul(bcr & 0xFFFF);
        let t = s.with_reg32(0x10C0, madr.wrapping_add(words.wrapping_mul(4)) & 0x00FF_FFFF);
        let mode = (chcr >> 9u32) & 3;
        (if mode == 0 {
            t.with_reg32(0x10C4, bcr & 0xFFFF_0000)
        } else if mode == 1 {
            t.with_reg32(0x10C4, bcr & 0x0000_FFFF)
        } else {
            t
        }).channel_done(4)
    }

    /// The bus after an ordering table has been cleared.
    #[verifier::opaque]
    pub open spec fn dma_otc(self, madr: u32, bcr: u32) -> BusState {
        let n = table_count(bcr);
        (BusState {
            ram: table_cleared(self.ram, madr & 0x1F_FFFC, n, n as nat),
            ..self
        }).channel_done(6)
    }

    /// The bus after a write to a channel's control register, which runs the
    /// channel if it is triggered and enabled.
    pub open spec fn dma_run(self, ch: int, chcr: u32) -> BusState {
        let enabled = self.reg32(DPCR) & (8u32 << ((ch * 4) as u32)) != 0;
        if chcr & 0x0100_0000 == 0 || !enabled {
            self
        } else {
            let madr = self.reg32(channel_base(ch)) & 0x1F_FFFC;
            let bcr = self.reg32((channel_base(ch) + 4) as u32);
            if ch == 0 || ch == 1 {
                self.channel_done(ch)
            } else if ch == 2 {
                self.dma_gpu(madr, bcr, chcr)
            } else if ch == 3 {
                self.dma_cdrom(madr, bcr, chcr)
            } else if ch == 4 {
                self.dma_spu(madr, bcr, chcr)
            } else if ch == 6 {
                self.dma_otc(madr, bcr)
            } else {
                self
            }
        }
    }
}

/// The DMA controller. Its registers are kept with the other hardware registers.
pub struct DmaController {}

impl DmaController {
    pub fn new() -> (r: DmaController)
        ensures
            r == (DmaController {  }),
    {
        DmaController {  }
    }
}

/// What masking an address to a word of main memory means, and what the parts of
/// a register can hold.
pub proof fn lemma_register_parts(a: u32)
    ensures
        a & 0x1F_FFFC == a / 4 * 4 % 0x20_0000,
        a & 0x1F_FFFF == a % 0x20_0000,
        a & 0x1F_FFFC <= 0x1F_FFFC,
        (a & 0x1F_FFFC) % 4 == 0,
        a & 0xFFFF <= 0xFFFF,
        a >> 16u32 <= 0xFFFF,
        a >> 24u32 <= 0xFF,
{
    assert(a & 0x1F_FFFC == a / 4 * 4 % 0x20_0000 && a & 0x1F_FFFF == a % 0x20_0000 && a & 0x1F_FFFC
        <= 0x1F_FFFC && (a & 0x1F_FFFC) % 4 == 0 && a & 0xFFFF <= 0xFFFF && a >> 16u32 <= 0xFFFF && a
        >> 24u32 <= 0xFF) by (bit_vector);
}

/// Works out the master flag of the DMA interrupt register.
pub(crate) fn set_master_flag(dicr: u32) -> (r: u32)
    ensures
        r == with_master_flag(dicr),
{
    if raises_irq(dicr) {
        (dicr & 0x7FFF_FFFF) | 0x8000_0000
    } else {
        dicr & 0x7FFF_FFFF
    }
}

/// Whether the DMA interrupt register raises the DMA interrupt.
fn raises_irq(dicr: u32) -> (r: bool)
    ensures
        r == master_flag(dicr),
{
    dicr & (1u32 << 23u32) != 0 && ((dicr >> 24u32) & 0x7F) & ((dicr >> 16u32) & 0x7F) != 0
}

impl Bus {
    /// Marks a channel as finished.
    pub(crate) fn dma_channel_done(&mut self, channel: u32)
        requires
            old(self).wf(),
            channel < 7,
        ensures
            final(self).wf(),
            final(self)@ == old(self)@.channel_done(channel as int),
    {
        let base: u32 = 0x1080 + channel * 0x10;
        let chcr: u32 = self.read_hw_reg32(base + 8);
        self.write_hw_reg32(base + 8, chcr & !0x0100_0000u32);
        let dicr: u32 = self.read_hw_reg32(DICR);
        if (dicr >> (16 + channel)) & 1 != 0 {
            let flagged: u32 = dicr | (1u32 << (24 + channel));
            self.write_hw_reg32(DICR, set_master_flag(flagged));
            if raises_irq(flagged) {
                self.set_irq(3);
            }
        }
    }

    /// The graphics channel has finished.
    pub fn dma_gpu_interrupt(&mut self)
        requires
            old(self).wf(),
        ensures
            final(self).wf(),
            final(self)@ == old(self)@.channel_done(2),
    {
        self.dma_channel_done(2);
    }

    /// The ordering table channel has finished.
    pub fn dma_otc_interrupt(&mut self)
        requires
            old(self).wf(),
        ensures
            final(self).wf(),
            final(self)@ == old(self)@.channel_done(6),
    {
        self.dma_channel_done(6);
    }

    /// Whether the CD-ROM has sector data.
    pub fn cdrom_has_data(&self) -> (r: bool)
        ensures
            r == (self@.cdrom.ctrl & DRQSTS != 0),
    {
        self.cdrom.read_ctrl_drq()
    }
}

/// Channel 0, to the motion decoder. There is no motion decoder: the channel
/// finishes at once.
pub fn dma_mdec_in(bus: &mut Bus, _madr: u32, _bcr: u32, _chcr: u32)
    requires
        old(bus).wf(),
    ensures
        final(bus).wf(),
        final(bus)@ == old(bus)@.channel_done(0),
{
    bus.dma_channel_done(0);
}

/// Channel 1, from the motion decoder. It finishes at once too.
pub fn dma_mdec_out(bus: &mut Bus, _madr: u32, _bcr: u32, _chcr: u32)
    requires
        old(bus).wf(),
    ensures
        final(bus).wf(),
        final(bus)@ == old(bus)@.channel_done(1),
{
    bus.dma_channel_done(1);
}

/// How the address of a block moves on.
proof fn lemma_next_block_word(madr: u32, i: nat, addr: u32)
    requires
        addr as int % 0x20_0000 == block_word(madr, i),
        block_word(madr, i) <= 0x1F_FFFC,
    ensures
        addr & 0x1F_FFFF == block_word(madr, i),
        (addr.wrapping_add(4) & 0x1F_FFFC) as int % 0x20_0000 == block_word(madr, i + 1),
        block_word(madr, i + 1) <= 0x1F_FFFC,
{
    let next = addr.wrapping_add(4);
    lemma_register_parts(addr);
    lemma_register_parts(next);
    lemma_round_down(next as int);
    lemma_round_down(madr + 4 * i);
    lemma_round_down(madr + 4 * (i + 1));
    let x = madr + 4 * i;
    lemma_wrap_step(addr as int);
    lemma_wrap_step(x);
    lemma_word_step(block_word(madr, i), x % 0x20_0000);
    assert(next as int % 0x20_0000 == (addr as int + 4) % 0x20_0000) by {
        lemma_wrapping_step(addr);
    }
    assert(madr + 4 * (i + 1) == x + 4);
}

/// Adding a word wraps at the end of main memory as at the end of a register.
proof fn lemma_wrapping_step(addr: u32)
    ensures
        addr.wrapping_add(4) as int % 0x20_0000 == (addr as int + 4) % 0x20_0000,
{
}

proof fn lemma_wrap_step(x: int)
    ensures
        (x + 4) % 0x20_0000 == (x % 0x20_0000 + 4) % 0x20_0000,
{
}

/// Two addresses in one word are in one word after the next step too.
proof fn lemma_word_step(r: int, x: int)
    requires
        0 <= r < 0x20_0000,
        0 <= x < 0x20_0000,
        r / 4 == x / 4,
    ensures
        (r + 4) % 0x20_0000 / 4 * 4 == (x + 4) % 0x20_0000 / 4 * 4,
{
    if r >= 0x1F_FFFC {
        assert((r + 4) % 0x20_0000 == r - 0x1F_FFFC);
        assert((x + 4) % 0x20_0000 == x - 0x1F_FFFC);
    } else {
        assert((r + 4) % 0x20_0000 == r + 4);
        assert((x + 4) % 0x20_0000 == x + 4);
    }
}

/// Rounding down to a word and wrapping at the end of main memory commute.
proof fn lemma_round_down(x: int)
    requires
        0 <= x,
    ensures
        x / 4 * 4 % 0x20_0000 == x % 0x20_0000 / 4 * 4,
        x / 4 * 4 % 0x20_0000 <= 0x1F_FFFC,
{
    let q = x / 0x20_0000;
    let r = x % 0x20_0000;
    assert(x / 4 * 4 == 0x20_0000 * q + r / 4 * 4);
}

/// Sends a block of `words` words to the graphics processor.
fn feed_block(bus: &mut Bus, madr: u32, words: u32)
    requires
        old(bus).wf(),
        madr % 0x20_0000 <= 0x1F_FFFC,
    ensures
        final(bus).wf(),
        final(bus)@ == (BusState {
            gpu: block_fed(old(bus)@.gpu, old(bus)@.ram, madr, words as nat),
            ..old(bus)@
        }),
{
    let mut addr: u32 = madr;
    let mut i: u32 = 0;
    while i < words
        invariant
            i <= words,
            bus.wf(),
            addr as int % 0x20_0000 == block_word(madr, i as nat),
            block_word(madr, i as nat) <= 0x1F_FFFC,
            bus@ == (BusState {
                gpu: block_fed(old(bus)@.gpu, old(bus)@.ram, madr, i as nat),
                ..old(bus)@
            }),
        decreases words - i,
    {
        proof {
            lemma_next_block_word(madr, i as nat, addr);
        }
        let word: u32 = read_le32(bus.ram.as_slice(), (addr & 0x1F_FFFF) as usize);
        bus.gpu.gp0_write(word);
        addr = addr.wrapping_add(4) & 0x1F_FFFC;
        i += 1;
    }
}

/// Takes a block of `words` words from the graphics processor.
fn take_block(bus: &mut Bus, madr: u32, words: u32)
    requires
        old(bus).wf(),
        madr % 0x20_0000 <= 0x1F_FFFC,
    ensures
        final(bus).wf(),
        final(bus)@ == (BusState {
            gpu: block_taken(old(bus)@.gpu, old(bus)@.ram, madr, words as nat).0,
            ram: block_taken(old(bus)@.gpu, old(bus)@.ram, madr, words as nat).1,
            ..old(bus)@
        }),
{
    let mut addr: u32 = madr;
    let mut i: u32 = 0;
    while i < words
        invariant
            i <= words,
            bus.wf(),
            addr as int % 0x20_0000 == block_word(madr, i as nat),
            block_word(madr, i as nat) <= 0x1F_FFFC,
            bus@ == (BusState {
                gpu: block_taken(old(bus)@.gpu, old(bus)@.ram, madr, i as nat).0,
                ram: block_taken(old(bus)@.gpu, old(bus)@.ram, madr, i as nat).1,
                ..old(bus)@
            }),
        decreases words - i,
    {
        proof {
            lemma_next_block_word(madr, i as nat, addr);
        }
        let word: u32 = bus.gpu.read_data();
        write_le32(&mut bus.ram, (addr & 0x1F_FFFF) as usize, word);
        addr = addr.wrapping_add(4) & 0x1F_FFFC;
        i += 1;
    }
}

/// Sends the words of the list node at `addr` to the graphics processor.
fn feed_node(bus: &mut Bus, addr: u32, words: u32)
    requires
        old(bus).wf(),
        addr <= 0x1F_FFFC,
        addr % 4 == 0,
        words <= 0xFF,
    ensures
        final(bus).wf(),
        final(bus)@ == (BusState {
            gpu: node_fed(old(bus)@.gpu, old(bus)@.ram, addr, words as nat),
            ..old(bus)@
        }),
{
    let mut i: u32 = 0;
    while i < words
        invariant
            i <= words <= 0xFF,
            addr <= 0x1F_FFFC,
            addr % 4 == 0,
            bus.wf(),
            bus@ == (BusState {
                gpu: node_fed(old(bus)@.gpu, old(bus)@.ram, addr, i as nat),
                ..old(bus)@
            }),
        decreases words - i,
    {
        i += 1;
        let at: u32 = addr + i * 4;
        proof {
            lemma_register_parts(at);
        }
        let word: u32 = read_le32(bus.ram.as_slice(), (at & 0x1F_FFFF) as usize);
        bus.gpu.gp0_write(word);
    }
}

/// Sends the linked list at `madr` to the graphics processor.
fn feed_list(bus: &mut Bus, madr: u32)
    requires
        old(bus).wf(),
    ensures
        final(bus).wf(),
        final(bus)@ == (BusState {
            gpu: list_fed(old(bus)@.gpu, old(bus)@.ram, madr & 0x1F_FFFC, MAX_NODES as nat),
            ..old(bus)@
        }),
{
    let mut addr: u32 = madr & 0x1F_FFFC;
    let mut left: u32 = MAX_NODES;
    proof {
        lemma_register_parts(madr);
    }
    while left > 0
        invariant
            bus.wf(),
            addr <= 0x1F_FFFC,
            addr % 4 == 0,
            bus@ == (BusState { gpu: bus@.gpu, ..old(bus)@ }),
            list_fed(bus@.gpu, old(bus)@.ram, addr, left as nat) == list_fed(
                old(bus)@.gpu,
                old(bus)@.ram,
                madr & 0x1F_FFFC,
                MAX_NODES as nat,
            ),
        decreases left,
    {
        let header: u32 = read_le32(bus.ram.as_slice(), addr as usize);
        proof {
            lemma_register_parts(header);
        }
        feed_node(bus, addr, header >> 24u32);
        if header & 0x00FF_FFFF == 0x00FF_FFFF {
            return;
        }
        left -= 1;
        addr = header & 0x1F_FFFC;
    }
}

/// Channel 2: the graphics processor.
pub fn dma_gpu(bus: &mut Bus, madr: u32, bcr: u32, chcr: u32)
    requires
        old(bus).wf(),
        (chcr >> 9u32) & 3 == 1 ==> madr % 0x20_0000 <= 0x1F_FFFC,
    ensures
        final(bus).wf(),
        final(bus)@ == old(bus)@.dma_gpu(madr, bcr, chcr),
        final(bus)@.last_cycle == old(bus)@.last_cycle,
{
    proof {
        reveal(BusState::dma_gpu);
    }
    let to_gpu: bool = chcr & 1 == 1;
    match (chcr >> 9u32) & 3 {
        1 => {
            let block_size: u32 = if bcr & 0xFFFF == 0 {
                0x10000
            } else {
                bcr & 0xFFFF
            };
            let block_count: u32 = if bcr >> 16u32 == 0 {
                0x10000
            } else {
                bcr >> 16u32
            };
            let words: u32 = block_count.wrapping_mul(block_size);
            if to_gpu {
                feed_block(bus, madr, words);
            } else {
                take_block(bus, madr, words);
            }
        },
        2 => {
            if !to_gpu {
                return;
            }
            feed_list(bus, madr);
        },
        _ => {},
    }
    bus.dma_gpu_interrupt();
}

/// Stores `data` in main memory from `base` on.
fn fill_ram(bus: &mut Bus, base: u32, data: &[u8])
    requires
        old(bus).wf(),
        base <= 0x1F_FFFC,
        data@.len() <= 0x20_0000,
    ensures
        final(bus).wf(),
        final(bus)@ == (BusState {
            ram: ram_filled(old(bus)@.ram, base as int, data@),
            ..old(bus)@
        }),
{
    let mut i: usize = 0;
    while i < data.len()
        invariant
            i <= data@.len() <= 0x20_0000,
            base <= 0x1F_FFFC,
            bus.wf(),
            old(bus).wf(),
            bus@ == (BusState { ram: bus@.ram, ..old(bus)@ }),
            forall|p: int|
                0 <= p < 0x20_0000 ==> #[trigger] bus@.ram[p] == (if (p - base) % 0x20_0000
                    < i {
                    data@[(p - base) % 0x20_0000]
                } else {
                    old(bus)@.ram[p]
                }),
        decreases data@.len() - i,
    {
        let at: u32 = base + i as u32;
        proof {
            lemma_register_parts(at);
        }
        bus.ram[(at & 0x1F_FFFF) as usize] = data[i];
        i += 1;
    }
    assert(bus@.ram =~= ram_filled(old(bus)@.ram, base as int, data@));
}

/// Channel 3: from the CD-ROM.
pub fn dma_cdrom(bus: &mut Bus, madr: u32, bcr: u32, chcr: u32)
    requires
        old(bus).wf(),
    ensures
        final(bus).wf(),
        final(bus)@ == old(bus)@.dma_cdrom(madr, bcr, chcr),
        final(bus)@.last_cycle == old(bus)@.last_cycle,
{
    proof {
        reveal(BusState::dma_cdrom);
    }
    if (chcr == 0x1100_0000 || chcr == 0x1140_0100) && bus.cdrom.is_read_active() {
        proof {
            lemma_register_parts(madr);
            lemma_register_parts(bcr);
        }
        let words: u32 = bcr & 0xFFFF;
        let size: usize = if words == 0 {
            2048
        } else {
            (words * 4) as usize
        };
        let mut buf: Vec<u8> = vec![0u8; size];
        bus.cdrom.dma_read(buf.as_mut_slice());
        fill_ram(bus, madr & 0x1F_FFFC, buf.as_slice());
    }
    bus.dma_channel_done(3);
}

/// Whether `n` halfwords from `madr` on never run over the end of main memory.
pub open spec fn halves_fit(madr: u32, n: int) -> bool {
    forall|i: int| 0 <= i < n ==> #[trigger] ((madr + 2 * i) % 0x20_0000) < 0x1F_FFFF
}

/// Halfwords from an even address on never run over the end.
pub proof fn lemma_even_halves_fit(madr: u32, n: int)
    requires
        madr % 2 == 0,
    ensures
        halves_fit(madr, n),
{
    assert forall|i: int| 0 <= i < n implies #[trigger] ((madr + 2 * i) % 0x20_0000)
        < 0x1F_FFFF by {
        let h = madr / 2 + i;
        assert(madr + 2 * i == 2 * h);
        assert((2 * h) % 0x20_0000 == 2 * (h % 0x10_0000));
    }
}

/// Channel 4: the sound processor.
pub fn dma_spu(bus: &mut Bus, madr: u32, bcr: u32, chcr: u32)
    requires
        old(bus).wf(),
        chcr == 0x0100_0201 || chcr == 0x0100_0200 ==> halves_fit(madr, spu_halves(bcr) as int),
    ensures
        final(bus).wf(),
        final(bus)@ == old(bus)@.dma_spu(madr, bcr, chcr),
        final(bus)@.last_cycle == old(bus)@.last_cycle,
{
    proof {
        reveal(BusState::dma_spu);
    }
    let size: usize = (bcr >> 16u32).wrapping_mul(bcr & 0xFFFF).wrapping_mul(2) as usize;
    match chcr {
        0x0100_0201 => {
            let mut data: Vec<u16> = vec![0u16; size];
            let mut addr: u32 = madr;
            let mut i: usize = 0;
            while i < size
                invariant
                    i <= size,
                    data@.len() == size,
                    halves_fit(madr, size as int),
                    bus.wf(),
                    bus@ == old(bus)@,
                    addr as int % 0x20_0000 == (madr + 2 * i) % 0x20_0000,
                    forall|j: int|
                        0 <= j < i ==> #[trigger] data@[j] == le16(
                            old(bus)@.ram,
                            (madr + 2 * j) % 0x20_0000,
                        ),
                decreases size - i,
            {
                proof {
                    lemma_register_parts(addr);
                    assert((madr + 2 * i as int) % 0x20_0000 < 0x1F_FFFF);
                }
                data[i] = read_le16(bus.ram.as_slice(), (addr & 0x1F_FFFF) as usize);
                addr = addr.wrapping_add(2);
                i += 1;
            }
            assert(data@ =~= ram_halves(old(bus)@.ram, madr, size as nat));
            bus.spu.dma_write(data.as_slice());
        },
        0x0100_0200 => {
            let mut data: Vec<u16> = vec![0u16; size];
            bus.spu.dma_read(data.as_mut_slice());
            let mut addr: u32 = madr;
            let mut i: usize = 0;
            let ghost before = bus@;
            while i < size
                invariant
                    i <= size,
                    data@.len() == size,
                    halves_fit(madr, size as int),
                    before.wf(),
                    bus.wf(),
                    bus@ == (BusState {
                        ram: halves_stored(before.ram, madr, data@, i as nat),
                        ..before
                    }),
                    addr as int % 0x20_0000 == (madr + 2 * i) % 0x20_0000,
                decreases size - i,
            {
                proof {
                    lemma_register_parts(addr);
                    assert((madr + 2 * i as int) % 0x20_0000 < 0x1F_FFFF);
                }
                write_le16(&mut bus.ram, (addr & 0x1F_FFFF) as usize, data[i]);
                addr = addr.wrapping_add(2);
                i += 1;
            }
        },
        _ => {},
    }
    let block_count: u32 = if bcr >> 16u32 == 0 {
        0x10000
    } else {
        bcr >> 16u32
    };
    let words: u32 = block_count.wrapping_mul(bcr & 0xFFFF);
    bus.write_hw_reg32(0x10C0, madr.wrapping_add(words.wrapping_mul(4)) & 0x00FF_FFFF);
    let mode: u32 = (chcr >> 9u32) & 3;
    if mode == 0 {
        bus.write_hw_reg32(0x10C4, bcr & 0xFFFF_0000);
    } else if mode == 1 {
        bus.write_hw_reg32(0x10C4, bcr & 0x0000_FFFF);
    }
    bus.dma_channel_done(4);
}

/// Going down one word from an entry of an ordering table leads to the next one.
proof fn lemma_table_step(base: u32, i: int, addr: u32)
    requires
        addr == table_entry(base, i),
        addr % 4 == 0,
    ensures
        addr.wrapping_sub(4) & 0x1F_FFFC == table_entry(base, i + 1),
        addr.wrapping_sub(4) & 0x1F_FFFF == table_entry(base, i + 1),
        addr & 0x1F_FFFF == addr,
        (addr.wrapping_sub(4) & 0x1F_FFFC) % 4 == 0,
        addr <= 0x1F_FFFC,
{
    lemma_register_parts(addr);
    lemma_register_parts(addr.wrapping_sub(4));
}

/// Channel 6: clears an ordering table, from its last entry down.
pub fn dma_otc(bus: &mut Bus, madr: u32, bcr: u32, _chcr: u32)
    requires
        old(bus).wf(),
    ensures
        final(bus).wf(),
        final(bus)@ == old(bus)@.dma_otc(madr, bcr),
        final(bus)@.last_cycle == old(bus)@.last_cycle,
{
    proof {
        reveal(BusState::dma_otc);
    }
    let count: u32 = if bcr == 0 {
        0x10000
    } else {
        bcr & 0xFFFF
    };
    let base: u32 = madr & 0x1F_FFFC;
    let mut addr: u32 = base;
    proof {
        lemma_register_parts(madr);
    }
    let mut i: u32 = 0;
    while i < count
        invariant
            i <= count,
            count == table_count(bcr),
            bus.wf(),
            base <= 0x1F_FFFC,
            base % 4 == 0,
            addr == table_entry(base, i as int),
            addr % 4 == 0,
            bus@ == (BusState {
                ram: table_cleared(old(bus)@.ram, base, count, i as nat),
                ..old(bus)@
            }),
        decreases count - i,
    {
        proof {
            lemma_table_step(base, i as int, addr);
        }
        let value: u32 = if i == count - 1 {
            0x00FF_FFFF
        } else {
            addr.wrapping_sub(4) & 0x1F_FFFF
        };
        write_le32(&mut bus.ram, (addr & 0x1F_FFFF) as usize, value);
        addr = addr.wrapping_sub(4) & 0x1F_FFFC;
        i += 1;
    }
    bus.dma_otc_interrupt();
}

} // verus!
