//! The sound processor's registers and memory port.
//!
//! Sound synthesis is not emulated. The BIOS polls SPUSTAT during start-up and
//! expects its low six bits to follow SPUCNT.

use crate::word::{le16, lemma_word_read_back, put16, read_le16, write_le16};
use crate::bits::{lemma_half_of, lemma_parts_of};
use vstd::prelude::*;

verus! {

/// The size of sound memory in bytes.
pub const SPU_RAM_SIZE: usize = 0x8_0000;

/// Register offsets from 0x1F801C00.
pub const OFF_SPU_ADDR: u32 = 0x1A6;

pub const OFF_SPU_DATA: u32 = 0x1A8;

pub const OFF_SPUCNT: u32 = 0x1AA;

pub const OFF_SPUSTAT: u32 = 0x1AE;

/// Sound memory, the register file and the transfer port.
pub struct Spu {
    pub ram: Vec<u8>,
    pub regs: Vec<u16>,
    pub spu_ctrl: u16,
    pub spu_stat: u16,
    pub spu_addr: u32,
}

/// The state of the sound processor.
pub struct SpuState {
    pub ram: Seq<u8>,
    pub regs: Seq<u16>,
    pub ctrl: u16,
    pub stat: u16,
    /// The byte address of the next transfer.
    pub addr: u32,
}

impl View for Spu {
    type V = SpuState;

    open spec fn view(&self) -> SpuState {
        SpuState {
            ram: self.ram@,
            regs: self.regs@,
            ctrl: self.spu_ctrl,
            stat: self.spu_stat,
            addr: self.spu_addr,
        }
    }
}

/// The register slot that an offset falls into.
pub open spec fn slot(offset: u32) -> int {
    (offset / 2) as int % 0x200
}

impl SpuState {
    /// The state after power-on.
    pub open spec fn initial() -> SpuState {
        SpuState {
            ram: Seq::new(SPU_RAM_SIZE as nat, |i: int| 0u8),
            regs: Seq::new(0x200, |i: int| 0u16),
            ctrl: 0,
            stat: 0,
            addr: 0,
        }
    }

    /// The stores have their sizes, and the transfer address is an even
    /// address inside sound memory.
    pub open spec fn wf(self) -> bool {
        &&& self.ram.len() == SPU_RAM_SIZE
        &&& self.regs.len() == 0x200
        &&& self.addr < SPU_RAM_SIZE
        &&& self.addr % 2 == 0
    }

    /// The state with the transfer address moved on by one halfword, wrapping
    /// at the end of sound memory.
    pub open spec fn stepped(self) -> SpuState {
        SpuState { addr: ((self.addr + 2) % 0x8_0000) as u32, ..self }
    }

    /// The value of a register.
    pub open spec fn reg(self, offset: u32) -> u16 {
        if offset == OFF_SPUCNT {
            self.ctrl
        } else if offset == OFF_SPUSTAT {
            (self.stat & !0x3Fu16) | (self.ctrl & 0x3F)
        } else if offset == OFF_SPU_ADDR {
            (self.addr >> 3) as u16
        } else if offset == OFF_SPU_DATA {
            le16(self.ram, self.addr as int)
        } else {
            self.regs[slot(offset)]
        }
    }

    /// The state after a register has been read. Only the data port changes
    /// anything.
    pub open spec fn after_read(self, offset: u32) -> SpuState {
        if offset == OFF_SPU_DATA {
            self.stepped()
        } else {
            self
        }
    }

    /// The state after one halfword has gone to sound memory.
    pub open spec fn stored(self, value: u16) -> SpuState {
        (SpuState { ram: put16(self.ram, self.addr as int, value), ..self }).stepped()
    }

    /// The state after a register has been written. Writes other than to the
    /// control and status registers also show in the register file.
    pub open spec fn written(self, offset: u32, value: u16) -> SpuState {
        let filed = SpuState { regs: self.regs.update(slot(offset), value), ..self };
        if offset == OFF_SPUCNT {
            SpuState { ctrl: value, ..self }
        } else if offset == OFF_SPUSTAT {
            SpuState { stat: value & 0xF800, ..self }
        } else if offset == OFF_SPU_ADDR {
            SpuState { addr: (value as u32) << 3, ..filed }
        } else if offset == OFF_SPU_DATA {
            filed.stored(value)
        } else {
            filed
        }
    }

    /// The state after all of `data` has gone to sound memory, in order.
    pub open spec fn dma_written(self, data: Seq<u16>) -> SpuState
        decreases data.len(),
    {
        if data.len() == 0 {
            self
        } else {
            self.dma_written(data.drop_last()).stored(data.last())
        }
    }

    /// The next `n` halfwords of sound memory.
    pub open spec fn dma_words(self, n: nat) -> Seq<u16> {
        Seq::new(n, |i: int| le16(self.ram, (self.addr + 2 * i) % 0x8_0000))
    }

    /// The state after `n` halfwords have been taken from sound memory.
    pub open spec fn dma_taken(self, n: nat) -> SpuState {
        SpuState { addr: ((self.addr + 2 * n) % 0x8_0000) as u32, ..self }
    }
}

proof fn lemma_spu_masks(a: u32, offset: u32, value: u16)
    ensures
        a < 0x8_0000 ==> (a + 2) as u32 & 0x7_FFFF == (a + 2) % 0x8_0000,
        (offset / 2) & 0x1FF == (offset / 2) % 0x200,
        (value as u32) << 3 < 0x8_0000,
        ((value as u32) << 3) % 2 == 0,
{
    lemma_parts_of((a + 2) as u32);
    lemma_parts_of(offset / 2);
    lemma_parts_of(value as u32);
}

impl Spu {
    pub open spec fn wf(&self) -> bool {
        self@.wf()
    }

    /// The sound processor after power-on.
    pub fn new() -> (r: Self)
        ensures
            r.wf(),
            r@ == SpuState::initial(),
    {
        let r = Spu {
            ram: vec![0u8; SPU_RAM_SIZE],
            regs: vec![0u16; 0x200],
            spu_ctrl: 0,
            spu_stat: 0,
            spu_addr: 0,
        };
        assert(r@.ram =~= SpuState::initial().ram);
        assert(r@.regs =~= SpuState::initial().regs);
        r
    }

    /// Reads a register.
    pub fn read16(&mut self, offset: u32) -> (r: u16)
        requires
            old(self).wf(),
        ensures
            final(self).wf(),
            r == old(self)@.reg(offset),
            final(self)@ == old(self)@.after_read(offset),
    {
        proof {
            lemma_spu_masks(self.spu_addr, offset, 0);
        }
        match offset {
            OFF_SPUCNT => self.spu_ctrl,
            OFF_SPUSTAT => (self.spu_stat & !0x3Fu16) | (self.spu_ctrl & 0x3F),
            OFF_SPU_ADDR => (self.spu_addr >> 3) as u16,
            OFF_SPU_DATA => {
                let val: u16 = read_le16(self.ram.as_slice(), self.spu_addr as usize);
                self.spu_addr = (self.spu_addr + 2) & 0x7_FFFF;
                val
            },
            _ => self.regs[((offset / 2) & 0x1FF) as usize],
        }
    }

    /// Takes one halfword into sound memory.
    fn store(&mut self, value: u16)
        requires
            old(self).wf(),
        ensures
            final(self).wf(),
            final(self)@ == old(self)@.stored(value),
    {
        proof {
            lemma_spu_masks(self.spu_addr, 0, 0);
        }
        write_le16(&mut self.ram, self.spu_addr as usize, value);
        self.spu_addr = (self.spu_addr + 2) & 0x7_FFFF;
    }

    /// Moves halfwords from main memory to sound memory.
    pub fn dma_write(&mut self, data: &[u16])
        requires
            old(self).wf(),
        ensures
            final(self).wf(),
            final(self)@ == old(self)@.dma_written(data@),
    {
        let mut i: usize = 0;
        while i < data.len()
            invariant
                self.wf(),
                i <= data@.len(),
                self@ == old(self)@.dma_written(data@.subrange(0, i as int)),
            decreases data@.len() - i,
        {
            self.store(data[i]);
            proof {
                let next = data@.subrange(0, i + 1);
                assert(next.drop_last() =~= data@.subrange(0, i as int));
            }
            i = i + 1;
        }
        assert(data@.subrange(0, data@.len() as int) =~= data@);
    }

    /// Moves halfwords from sound memory to main memory.
    pub fn dma_read(&mut self, buf: &mut [u16])
        requires
            old(self).wf(),
        ensures
            final(self).wf(),
            final(buf)@ == old(self)@.dma_words(old(buf)@.len()),
            final(self)@ == old(self)@.dma_taken(old(buf)@.len()),
    {
        let ghost n = buf@.len();
        let mut i: usize = 0;
        while i < buf.len()
            invariant
                self.wf(),
                n == buf@.len(),
                n == old(buf)@.len(),
                i <= n,
                self@ == old(self)@.dma_taken(i as nat),
                forall|k: int|
                    0 <= k < i ==> #[trigger] buf@[k] == le16(
                        old(self)@.ram,
                        (old(self)@.addr + 2 * k) % 0x8_0000,
                    ),
            decreases n - i,
        {
            proof {
                lemma_spu_masks(self.spu_addr, 0, 0);
            }
            buf[i] = read_le16(self.ram.as_slice(), self.spu_addr as usize);
            self.spu_addr = (self.spu_addr + 2) & 0x7_FFFF;
            i = i + 1;
        }
        assert(buf@ =~= old(self)@.dma_words(n));
    }

    /// Writes a register.
    pub fn write16(&mut self, offset: u32, value: u16)
        requires
            old(self).wf(),
        ensures
            final(self).wf(),
            final(self)@ == old(self)@.written(offset, value),
    {
        proof {
            lemma_spu_masks(self.spu_addr, offset, value);
        }
        let idx: usize = ((offset / 2) & 0x1FF) as usize;
        match offset {
            OFF_SPUCNT => {
                self.spu_ctrl = value;
            },
            OFF_SPUSTAT => {
                self.spu_stat = value & 0xF800;
            },
            OFF_SPU_ADDR => {
                self.spu_addr = (value as u32) << 3;
                self.regs[idx] = value;
            },
            OFF_SPU_DATA => {
                self.regs[idx] = value;
                self.store(value);
            },
            _ => {
                self.regs[idx] = value;
            },
        }
    }
}

/// The low six bits of SPUSTAT follow SPUCNT.
pub proof fn law_spustat_mirrors_spucnt(s: SpuState)
    ensures
        s.reg(OFF_SPUSTAT) & 0x3F == s.reg(OFF_SPUCNT) & 0x3F,
{
    lemma_half_of(s.stat, s.ctrl);
}

/// A plain register, the control register and the transfer address read back
/// as written.
pub proof fn law_register_read_back(s: SpuState, offset: u32, value: u16)
    requires
        s.wf(),
        offset != OFF_SPUSTAT,
        offset != OFF_SPU_DATA,
    ensures
        s.written(offset, value).reg(offset) == value,
{
    lemma_parts_of(value as u32);
}

pub proof fn lemma_dma_written(s: SpuState, data: Seq<u16>)
    requires
        s.wf(),
        data.len() <= 0x4_0000,
    ensures
        s.dma_written(data).wf(),
        s.dma_written(data).addr == (s.addr + 2 * data.len()) % 0x8_0000,
        s.dma_written(data) == (SpuState {
            ram: s.dma_written(data).ram,
            addr: s.dma_written(data).addr,
            ..s
        }),
        forall|i: int|
            0 <= i < data.len() ==> #[trigger] le16(
                s.dma_written(data).ram,
                (s.addr + 2 * i) % 0x8_0000,
            ) == data[i],
    decreases data.len(),
{
    if data.len() > 0 {
        let head = data.drop_last();
        lemma_dma_written(s, head);
        let t = s.dma_written(head);
        let n = head.len() as int;
        let value = data.last();
        lemma_word_read_back(t.ram, t.addr as int, value, 0);
        assert forall|i: int| 0 <= i < data.len() implies #[trigger] le16(
            s.dma_written(data).ram,
            (s.addr + 2 * i) % 0x8_0000,
        ) == data[i] by {
            if i < n {
                assert(le16(t.ram, (s.addr + 2 * i) % 0x8_0000) == head[i]);
                assert((s.addr + 2 * i) % 0x8_0000 != (s.addr + 2 * n) % 0x8_0000);
                assert((s.addr + 2 * i) % 0x8_0000 % 2 == 0);
            }
        }
    }
}

/// What a transfer out of sound memory gives back is what a transfer into it
/// put there, when it starts at the same address.
pub proof fn law_dma_read_back(s: SpuState, data: Seq<u16>)
    requires
        s.wf(),
        data.len() <= 0x4_0000,
    ensures
        (SpuState { addr: s.addr, ..s.dma_written(data) }).dma_words(data.len()) == data,
{
    lemma_dma_written(s, data);
    assert((SpuState { addr: s.addr, ..s.dma_written(data) }).dma_words(data.len()) =~= data);
}

/// The transfer address is written in units of eight bytes. What is then written to the
/// data register goes to sound memory from there on, halfword after halfword, the low
/// byte first.
pub proof fn law_data_port(s: SpuState, place: u16, a: u16, b: u16)
    requires
        s.wf(),
    ensures
        ({
            let t = s.written(0x1A6, place).written(0x1A8, a).written(0x1A8, b);
            let at = place as int * 8;
            &&& t.ram[at] == a as int % 256 && t.ram[at + 1] == a as int / 256
            &&& t.ram[at + 2] == b as int % 256 && t.ram[at + 3] == b as int / 256
            &&& forall|k: int|
                0 <= k < 0x8_0000 && !(at <= k < at + 4) ==> t.ram[k] == s.ram[k]
            &&& t.addr == at + 4
            &&& t.ctrl == s.ctrl && t.stat == s.stat
        }),
{
    assert((place as u32) << 3 == place * 8) by {
        lemma_parts_of(place as u32);
    }
    assert(a as u8 == a as int % 256 && (a >> 8) as u8 == a as int / 256) by {
        lemma_half_of(a, 0);
    }
    assert(b as u8 == b as int % 256 && (b >> 8) as u8 == b as int / 256) by {
        lemma_half_of(b, 0);
    }
    let p = s.written(0x1A6, place);
    assert(p.addr == place * 8 && p.ram == s.ram);
    let q = p.written(0x1A8, a);
    assert(q.addr == place * 8 + 2);
    let t = q.written(0x1A8, b);
    assert(t.addr == place * 8 + 4);
}

/// The control register is at offset 0x1AA and its low six bits show at 0x1AE, under the
/// upper five bits that were written there. The other registers keep what is written.
pub proof fn law_sound_registers(s: SpuState, value: u16, offset: u32)
    requires
        s.wf(),
        offset != 0x1A6,
        offset != 0x1A8,
        offset != 0x1AA,
        offset != 0x1AE,
        offset < 0x400,
        offset % 2 == 0,
    ensures
        s.written(0x1AA, value).reg(0x1AA) == value,
        s.written(0x1AA, value).reg(0x1AE) & 0x3F == value & 0x3F,
        s.written(offset, value).reg(offset) == value,
        s.written(offset, value).reg(0x1AA) == s.reg(0x1AA),
        s.written(offset, value).ram == s.ram,
        forall|other: u32|
            other != offset && other < 0x400 && other % 2 == 0 ==> #[trigger] s.written(
                offset,
                value,
            ).reg(other) == s.reg(other),
{
    lemma_half_of(s.stat, value);
}

} // verus!
