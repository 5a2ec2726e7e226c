//! The bus: main memory, scratchpad, BIOS and the hardware registers.

pub mod boot;
pub mod boot_laws;
pub mod dma;
pub mod done_laws;
pub mod laws;
pub mod line_laws;
pub mod map_laws;
pub mod state;
pub mod table_laws;
pub mod transfer_laws;

use crate::bus::dma::{
    dma_cdrom, dma_gpu, dma_mdec_in, dma_mdec_out, dma_otc, dma_spu, lemma_even_halves_fit,
    lemma_register_parts, set_master_flag, spu_halves, DmaController,
};
use crate::bus::state::{
    cd_scheduled, dicr_written, read_fits, write_fits, BIOS_SIZE, BusState, DICR, DPCR, HW_SIZE,
    IMASK, ISTAT, RAM_SIZE, SCRATCHPAD_SIZE,
};
use crate::cdrom::{CdInterrupt, CdIrqType, CdRom, CdState};
use crate::gpu::Gpu;
use crate::scheduler::{PsxInt, Scheduler};
use crate::sio::Sio;
use crate::spu::Spu;
use crate::timers::Timers;
use crate::word::{read_le16, read_le32, write_le16, write_le32};
use vstd::prelude::*;

verus! {

/// The bus with everything on it.
pub struct Bus {
    pub ram: Vec<u8>,
    pub bios: Vec<u8>,
    pub scratchpad: Vec<u8>,
    /// The hardware registers that only store what is written.
    pub hw_regs: Vec<u8>,
    pub gpu: Gpu,
    pub spu: Spu,
    pub cdrom: CdRom,
    pub timers: Timers,
    pub scheduler: Scheduler,
    pub sio: Sio,
    pub dma: DmaController,
    /// The processor's cycle count when it last touched the bus.
    pub last_cycle: u64,
    /// The characters that programs have printed.
    pub console: Vec<u8>,
}

impl View for Bus {
    type V = BusState;

    open spec fn view(&self) -> BusState {
        BusState {
            ram: self.ram@,
            bios: self.bios@,
            scratchpad: self.scratchpad@,
            hw: self.hw_regs@,
            gpu: self.gpu@,
            spu: self.spu@,
            cdrom: self.cdrom@,
            timers: self.timers,
            scheduler: self.scheduler,
            sio: self.sio@,
            dma: self.dma,
            last_cycle: self.last_cycle,
            console: self.console@,
        }
    }
}

/// Why a BIOS image is refused: its size, which has to be 512 KiB.
#[derive(Debug, Clone, Copy, PartialEq, Eq, Structural)]
pub struct BiosSizeError {
    pub size: usize,
}

/// The root counter register at a hardware offset.
fn timer_register(off: u32) -> (r: Option<(usize, u32)>)
    ensures
        match (r, crate::bus::state::timer_register(off)) {
            (Some(a), Some(b)) => a.0 == b.0 && a.1 == b.1 && a.0 < 3,
            (None, None) => true,
            _ => false,
        },
{
    let reg: u32 = off % 0x10;
    if 0x1100 <= off && off < 0x1130 && (reg == 0 || reg == 4 || reg == 8) {
        Some((((off - 0x1100) / 0x10) as usize, reg))
    } else {
        None
    }
}

/// Tells whether a word at `addr` does not run over the end of a memory.
pub fn word_fits(addr: u32) -> (r: bool)
    ensures
        r == read_fits(addr, 4),
{
    let phys: u32 = addr & 0x1FFF_FFFF;
    match phys {
        0x0000_0000..=0x001F_FFFF => phys <= 0x001F_FFFC,
        0x1F80_0000..=0x1F80_03FF => phys <= 0x1F80_03FC,
        0x1FC0_0000..=0x1FC7_FFFF => phys <= 0x1FC7_FFFC,
        _ => true,
    }
}

impl Bus {
    pub open spec fn wf(&self) -> bool {
        self@.wf()
    }

    /// A bus after power-on: everything is zero, and there is no BIOS yet.
    pub fn new() -> (bus: Bus)
        ensures
            bus.wf(),
            bus@.powered_on(),
    {
        let bus = Bus {
            ram: vec![0u8; RAM_SIZE],
            bios: vec![0u8; BIOS_SIZE],
            scratchpad: vec![0u8; SCRATCHPAD_SIZE],
            hw_regs: vec![0u8; HW_SIZE],
            gpu: Gpu::new(),
            spu: Spu::new(),
            cdrom: CdRom::new(),
            timers: Timers::new(),
            scheduler: Scheduler::new(),
            sio: Sio::new(),
            dma: DmaController::new(),
            last_cycle: 0,
            console: Vec::new(),
        };
        assert(bus@.ram =~= Seq::new(RAM_SIZE as nat, |i: int| 0u8));
        assert(bus@.bios =~= Seq::new(BIOS_SIZE as nat, |i: int| 0u8));
        assert(bus@.scratchpad =~= Seq::new(SCRATCHPAD_SIZE as nat, |i: int| 0u8));
        assert(bus@.hw =~= Seq::new(HW_SIZE as nat, |i: int| 0u8));
        bus
    }

    /// Installs a BIOS image of exactly 512 KiB.
    pub fn load_bios(&mut self, data: &[u8]) -> (r: Result<(), BiosSizeError>)
        requires
            old(self).wf(),
        ensures
            final(self).wf(),
            r is Ok <==> data@.len() == BIOS_SIZE,
            r is Ok ==> final(self)@ == (BusState { bios: data@, ..old(self)@ }),
            r is Err ==> r->Err_0.size == data@.len() && final(self)@ == old(self)@,
    {
        if data.len() != BIOS_SIZE {
            return Err(BiosSizeError { size: data.len() });
        }
        let mut i: usize = 0;
        while i < BIOS_SIZE
            invariant
                i <= BIOS_SIZE,
                data@.len() == BIOS_SIZE,
                self.bios@.len() == BIOS_SIZE,
                old(self).wf(),
                self@ == (BusState { bios: self.bios@, ..old(self)@ }),
                forall|j: int| 0 <= j < i ==> self.bios@[j] == data@[j],
            decreases BIOS_SIZE - i,
        {
            self.bios[i] = data[i];
            i += 1;
        }
        assert(self.bios@ =~= data@);
        Ok(())
    }

    /// Inserts a disc, given as a raw image.
    pub fn load_disc(&mut self, image: Vec<u8>)
        requires
            old(self).wf(),
        ensures
            final(self).wf(),
            final(self)@ == (BusState {
                cdrom: CdState {
                    disc: image@,
                    has_disc: true,
                    ..old(self)@.cdrom
                },
                ..old(self)@
            }),
    {
        self.cdrom.load_disc(image);
    }

    fn read_hw_reg16(&self, offset: u32) -> (v: u16)
        requires
            self.wf(),
            offset < 0xFFFF,
        ensures
            v == self@.reg16(offset),
    {
        read_le16(self.hw_regs.as_slice(), offset as usize)
    }

    fn write_hw_reg16(&mut self, offset: u32, value: u16)
        requires
            old(self).wf(),
            offset < 0xFFFF,
        ensures
            final(self).wf(),
            final(self)@ == old(self)@.with_reg16(offset, value),
    {
        write_le16(&mut self.hw_regs, offset as usize, value);
    }

    pub(crate) fn read_hw_reg32(&self, offset: u32) -> (v: u32)
        requires
            self.wf(),
            offset < 0xFFFD,
        ensures
            v == self@.reg32(offset),
    {
        read_le32(self.hw_regs.as_slice(), offset as usize)
    }

    pub(crate) fn write_hw_reg32(&mut self, offset: u32, value: u32)
        requires
            old(self).wf(),
            offset < 0xFFFD,
        ensures
            final(self).wf(),
            final(self)@ == old(self)@.with_reg32(offset, value),
    {
        write_le32(&mut self.hw_regs, offset as usize, value);
    }

    /// The interrupt status.
    pub fn read_istat(&self) -> (v: u32)
        requires
            self.wf(),
        ensures
            v == self@.istat(),
    {
        self.read_hw_reg32(ISTAT)
    }

    /// The interrupt mask.
    pub fn read_imask(&self) -> (v: u32)
        requires
            self.wf(),
        ensures
            v == self@.imask(),
    {
        self.read_hw_reg32(IMASK)
    }

    /// Raises an interrupt line.
    pub fn set_irq(&mut self, bit: u32)
        requires
            old(self).wf(),
            bit < 32,
        ensures
            final(self).wf(),
            final(self)@ == old(self)@.irq_set(bit),
    {
        let istat: u32 = self.read_hw_reg32(ISTAT);
        self.write_hw_reg32(ISTAT, istat | (1u32 << bit));
    }

    /// Moves the timers' interrupts to the interrupt status.
    pub fn drain_timer_irqs(&mut self)
        requires
            old(self).wf(),
        ensures
            final(self).wf(),
            final(self)@ == old(self)@.timers_drained(),
    {
        let irqs: u32 = self.timers.drain_irqs();
        if irqs != 0 {
            let istat: u32 = self.read_hw_reg32(ISTAT);
            self.write_hw_reg32(ISTAT, istat | irqs);
            if irqs & 0x01 != 0 {
                self.gpu.status.toggle_interlace_field();
            }
        }
    }

    /// Schedules the interrupt that the serial port has asked for.
    fn drain_sio_irq(&mut self)
        requires
            old(self).wf(),
            old(self)@.timely(),
        ensures
            final(self).wf(),
            final(self)@ == old(self)@.sio_drained(),
    {
        match self.sio.take_irq() {
            Some(delay) => {
                self.scheduler.schedule(PsxInt::Sio, self.last_cycle, delay);
            },
            None => {},
        }
    }

    /// Schedules the events that the CD-ROM has asked for.
    fn drain_cdrom_irqs(&mut self)
        requires
            old(self).wf(),
            old(self)@.timely(),
        ensures
            final(self).wf(),
            final(self)@ == old(self)@.cdrom_drained(),
    {
        let irqs: Vec<CdInterrupt> = self.cdrom.take_pending();
        let ghost before = self@;
        let mut i: usize = 0;
        while i < irqs.len()
            invariant
                i <= irqs@.len(),
                before.wf(),
                before.timely(),
                self@ == (BusState {
                    scheduler: cd_scheduled(
                        before.scheduler,
                        irqs@.subrange(0, i as int),
                        before.last_cycle,
                    ),
                    ..before
                }),
            decreases irqs@.len() - i,
        {
            let irq: CdInterrupt = irqs[i];
            let slot: PsxInt = match irq.irq_type {
                CdIrqType::Command => PsxInt::CdRom,
                CdIrqType::Read => PsxInt::CdRead,
                CdIrqType::Lid => PsxInt::CdRomLid,
            };
            self.scheduler.schedule(slot, self.last_cycle, irq.delay);
            proof {
                let next = irqs@.subrange(0, i + 1);
                assert(next.drop_last() =~= irqs@.subrange(0, i as int));
            }
            i += 1;
        }
        assert(irqs@.subrange(0, irqs@.len() as int) =~= irqs@);
    }

    /// Raises the CD-ROM's interrupt line if it asks for that, and schedules its
    /// events.
    fn settle_cdrom(&mut self, raised: bool)
        requires
            old(self).wf(),
            old(self)@.timely(),
        ensures
            final(self).wf(),
            final(self)@ == old(self)@.cdrom_moved(old(self)@.cdrom, raised),
    {
        if raised {
            self.set_irq(2);
        }
        self.drain_cdrom_irqs();
    }

    fn read_timer(&mut self, index: usize, reg: u32) -> (v: u32)
        requires
            old(self).wf(),
            index < 3,
            reg == 0 || reg == 4 || reg == 8,
        ensures
            final(self).wf(),
            v == old(self)@.timer_value(index as int, reg),
            final(self)@ == old(self)@.timer_read(index as int, reg),
    {
        if reg == 0 {
            let v: u32 = self.timers.read_counter(index, self.last_cycle);
            self.drain_timer_irqs();
            v
        } else if reg == 4 {
            let v: u32 = self.timers.read_mode(index, self.last_cycle);
            self.drain_timer_irqs();
            v
        } else {
            self.timers.read_target(index)
        }
    }

    fn write_timer(&mut self, index: usize, reg: u32, value: u32)
        requires
            old(self).wf(),
            index < 3,
            reg == 0 || reg == 4 || reg == 8,
        ensures
            final(self).wf(),
            final(self)@ == old(self)@.timer_written(index as int, reg, value),
    {
        if reg == 0 {
            self.timers.write_counter(index, value, self.last_cycle);
        } else if reg == 4 {
            self.timers.write_mode(index, value, self.last_cycle);
        } else {
            self.timers.write_target(index, value, self.last_cycle);
        }
        self.drain_timer_irqs();
    }

    fn hw_read8(&mut self, offset: u32) -> (v: u8)
        requires
            old(self).wf(),
            offset < 0x3000,
        ensures
            final(self).wf(),
            v == old(self)@.hw_byte(offset),
            final(self)@ == old(self)@.hw_byte_read(offset),
            final(self)@.last_cycle == old(self)@.last_cycle,
    {
        match offset {
            0x1040 => self.sio.read8(),
            0x1800..=0x1803 => self.cdrom.read(offset - 0x1800),
            _ => self.hw_regs[offset as usize],
        }
    }

    fn hw_read16(&mut self, offset: u32) -> (v: u16)
        requires
            old(self).wf(),
            offset < 0x3000,
        ensures
            final(self).wf(),
            v == old(self)@.hw_half(offset),
            final(self)@ == old(self)@.hw_half_read(offset),
            final(self)@.last_cycle == old(self)@.last_cycle,
    {
        match offset {
            0x1040 => {
                let low: u8 = self.sio.read8();
                let high: u8 = self.sio.read8();
                low as u16 | (high as u16) << 8u16
            },
            0x1044 => self.sio.read_status16(),
            0x1048 => self.sio.read_mode16(),
            0x104A => self.sio.read_ctrl16(),
            0x104E => self.sio.read_baud16(),
            0x1C00..=0x1FFF => self.spu.read16(offset - 0x1C00),
            _ => match timer_register(offset) {
                Some((i, reg)) => self.read_timer(i, reg) as u16,
                None => self.read_hw_reg16(offset),
            },
        }
    }

    fn hw_read32(&mut self, offset: u32) -> (v: u32)
        requires
            old(self).wf(),
            offset < 0x3000,
        ensures
            final(self).wf(),
            v == old(self)@.hw_word(offset),
            final(self)@ == old(self)@.hw_word_read(offset),
            final(self)@.last_cycle == old(self)@.last_cycle,
    {
        match offset {
            0x1040 => {
                let b0: u32 = self.sio.read8() as u32;
                let b1: u32 = self.sio.read8() as u32;
                let b2: u32 = self.sio.read8() as u32;
                let b3: u32 = self.sio.read8() as u32;
                b0 | b1 << 8u32 | b2 << 16u32 | b3 << 24u32
            },
            0x1044 => self.sio.read_status32(),
            0x1810 => self.gpu.read_data(),
            0x1814 => self.gpu.read_status(),
            0x1C00..=0x1FFF => {
                let low: u32 = self.spu.read16(offset - 0x1C00) as u32;
                let high: u32 = self.spu.read16(offset - 0x1C00 + 2) as u32;
                low | high << 16u32
            },
            _ => match timer_register(offset) {
                Some((i, reg)) => self.read_timer(i, reg),
                None => self.read_hw_reg32(offset),
            },
        }
    }

    fn hw_write8(&mut self, offset: u32, value: u8)
        requires
            old(self).wf(),
            old(self)@.timely(),
            offset < 0x3000,
        ensures
            final(self).wf(),
            final(self)@ == old(self)@.hw_byte_written(offset, value),
            final(self)@.last_cycle == old(self)@.last_cycle,
    {
        match offset {
            0x1040 => {
                self.sio.write8(value);
                self.drain_sio_irq();
            },
            0x1800..=0x1803 => {
                let raised: bool = self.cdrom.write(offset - 0x1800, value);
                self.settle_cdrom(raised);
            },
            _ => {
                self.hw_regs[offset as usize] = value;
            },
        }
    }

    /// Writes the serial port's control register.
    fn write_sio_ctrl(&mut self, value: u16)
        requires
            old(self).wf(),
            old(self)@.timely(),
        ensures
            final(self).wf(),
            final(self)@ == old(self)@.sio_controlled(value),
    {
        self.sio.write_ctrl16(value);
        if value & 0x0040 != 0 {
            self.scheduler.cancel(PsxInt::Sio);
        }
        self.drain_sio_irq();
    }

    fn hw_write16(&mut self, offset: u32, value: u16)
        requires
            old(self).wf(),
            old(self)@.timely(),
            offset < 0x3000,
        ensures
            final(self).wf(),
            final(self)@ == old(self)@.hw_half_written(offset, value),
            final(self)@.last_cycle == old(self)@.last_cycle,
    {
        match offset {
            0x1040 => {
                self.sio.write8(value as u8);
                self.drain_sio_irq();
            },
            0x1048 => self.sio.write_mode16(value),
            0x104A => self.write_sio_ctrl(value),
            0x104E => self.sio.write_baud16(value),
            ISTAT => {
                let current: u16 = self.read_hw_reg16(ISTAT);
                self.write_hw_reg16(ISTAT, current & value);
            },
            0x1C00..=0x1FFF => self.spu.write16(offset - 0x1C00, value),
            _ => match timer_register(offset) {
                Some((i, reg)) => self.write_timer(i, reg, value as u32),
                None => self.write_hw_reg16(offset, value),
            },
        }
    }

    /// Writes the DMA interrupt register.
    fn write_dicr(&mut self, value: u32)
        requires
            old(self).wf(),
        ensures
            final(self).wf(),
            final(self)@ == old(self)@.with_reg32(
                DICR,
                dicr_written(old(self)@.reg32(DICR), value),
            ),
    {
        let before: u32 = self.read_hw_reg32(DICR);
        let ack: u32 = value & 0x7F00_0000;
        let dicr: u32 = (before & 0x7F00_0000 & !ack) | (value & 0x00FF_803F);
        self.write_hw_reg32(DICR, set_master_flag(dicr));
    }

    fn hw_write32(&mut self, offset: u32, value: u32)
        requires
            old(self).wf(),
            old(self)@.timely(),
            offset < 0x3000,
        ensures
            final(self).wf(),
            final(self)@ == old(self)@.hw_word_written(offset, value),
            final(self)@.last_cycle == old(self)@.last_cycle,
    {
        match offset {
            0x1040 => {
                self.sio.write8(value as u8);
                self.drain_sio_irq();
            },
            0x1048 => self.sio.write_mode16(value as u16),
            0x104A => self.write_sio_ctrl(value as u16),
            0x104E => self.sio.write_baud16(value as u16),
            ISTAT => {
                let current: u32 = self.read_hw_reg32(ISTAT);
                self.write_hw_reg32(ISTAT, current & value);
            },
            0x1080..=0x10EF => {
                self.write_hw_reg32(offset, value);
                if offset % 0x10 == 8 {
                    self.dma_exec((offset - 0x1080) / 0x10, value);
                }
            },
            DICR => self.write_dicr(value),
            0x1810 => self.gpu.gp0_write(value),
            0x1814 => self.gpu.gp1_write(value),
            0x1C00..=0x1FFF => {
                self.spu.write16(offset - 0x1C00, value as u16);
                self.spu.write16(offset - 0x1C00 + 2, (value >> 16u32) as u16);
            },
            _ => match timer_register(offset) {
                Some((i, reg)) => {
                    let v: u32 = if reg == 8 {
                        value & 0xFFFF
                    } else {
                        value
                    };
                    self.write_timer(i, reg, v);
                },
                None => self.write_hw_reg32(offset, value),
            },
        }
    }

    /// Runs a DMA channel whose control register has been written, if it is
    /// triggered and enabled.
    fn dma_exec(&mut self, channel: u32, chcr: u32)
        requires
            old(self).wf(),
            channel < 7,
        ensures
            final(self).wf(),
            final(self)@ == old(self)@.dma_run(channel as int, chcr),
            final(self)@.last_cycle == old(self)@.last_cycle,
    {
        let dpcr: u32 = self.read_hw_reg32(DPCR);
        let enabled: bool = dpcr & (8u32 << (channel * 4)) != 0;
        if chcr & 0x0100_0000 == 0 || !enabled {
            return;
        }
        let base: u32 = 0x1080 + channel * 0x10;
        let madr: u32 = self.read_hw_reg32(base) & 0x1F_FFFC;
        let bcr: u32 = self.read_hw_reg32(base + 4);
        proof {
            lemma_register_parts(self@.reg32(base));
            lemma_even_halves_fit(
                madr,
                spu_halves(bcr) as int,
            );
        }
        match channel {
            0 => dma_mdec_in(self, madr, bcr, chcr),
            1 => dma_mdec_out(self, madr, bcr, chcr),
            2 => dma_gpu(self, madr, bcr, chcr),
            3 => dma_cdrom(self, madr, bcr, chcr),
            4 => dma_spu(self, madr, bcr, chcr),
            6 => dma_otc(self, madr, bcr, chcr),
            _ => {},
        }
    }

    /// Reads a byte.
    pub fn read8(&mut self, addr: u32) -> (v: u8)
        requires
            old(self).wf(),
        ensures
            final(self).wf(),
            v == old(self)@.byte(addr),
            final(self)@ == old(self)@.byte_read(addr),
            final(self)@.last_cycle == old(self)@.last_cycle,
    {
        proof {
            reveal(BusState::byte);
            reveal(BusState::byte_read);
        }
        let phys: u32 = addr & 0x1FFF_FFFF;
        match phys {
            0x0000_0000..=0x001F_FFFF => self.ram[phys as usize],
            0x1F80_0000..=0x1F80_03FF => self.scratchpad[(phys - 0x1F80_0000) as usize],
            0x1F80_1000..=0x1F80_2FFF => self.hw_read8(phys - 0x1F80_0000),
            0x1FC0_0000..=0x1FC7_FFFF => self.bios[(phys - 0x1FC0_0000) as usize],
            _ => 0xFF,
        }
    }

    /// Reads a halfword.
    pub fn read16(&mut self, addr: u32) -> (v: u16)
        requires
            old(self).wf(),
            read_fits(addr, 2),
        ensures
            final(self).wf(),
            v == old(self)@.half(addr),
            final(self)@ == old(self)@.half_read(addr),
            final(self)@.last_cycle == old(self)@.last_cycle,
    {
        proof {
            reveal(BusState::half);
            reveal(BusState::half_read);
        }
        let phys: u32 = addr & 0x1FFF_FFFF;
        match phys {
            0x0000_0000..=0x001F_FFFF => read_le16(self.ram.as_slice(), phys as usize),
            0x1F80_0000..=0x1F80_03FF => {
                read_le16(self.scratchpad.as_slice(), (phys - 0x1F80_0000) as usize)
            },
            0x1F80_1000..=0x1F80_2FFF => self.hw_read16(phys - 0x1F80_0000),
            0x1FC0_0000..=0x1FC7_FFFF => {
                read_le16(self.bios.as_slice(), (phys - 0x1FC0_0000) as usize)
            },
            _ => 0xFFFF,
        }
    }

    /// Reads a word.
    pub fn read32(&mut self, addr: u32) -> (v: u32)
        requires
            old(self).wf(),
            read_fits(addr, 4),
        ensures
            final(self).wf(),
            v == old(self)@.word(addr),
            final(self)@ == old(self)@.word_read(addr),
            final(self)@.last_cycle == old(self)@.last_cycle,
    {
        proof {
            reveal(BusState::word);
            reveal(BusState::word_read);
        }
        let phys: u32 = addr & 0x1FFF_FFFF;
        match phys {
            0x0000_0000..=0x001F_FFFF => read_le32(self.ram.as_slice(), phys as usize),
            0x1F00_0000..=0x1F7F_FFFF => 0xFFFF_FFFF,
            0x1F80_0000..=0x1F80_03FF => {
                read_le32(self.scratchpad.as_slice(), (phys - 0x1F80_0000) as usize)
            },
            0x1F80_1000..=0x1F80_2FFF => self.hw_read32(phys - 0x1F80_0000),
            0x1FC0_0000..=0x1FC7_FFFF => {
                read_le32(self.bios.as_slice(), (phys - 0x1FC0_0000) as usize)
            },
            _ => 0,
        }
    }

    /// Writes a byte. Nothing but main memory, the scratchpad and the hardware
    /// registers can be written.
    pub fn write8(&mut self, addr: u32, value: u8)
        requires
            old(self).wf(),
            old(self)@.timely(),
        ensures
            final(self).wf(),
            final(self)@ == old(self)@.byte_written(addr, value),
            final(self)@.last_cycle == old(self)@.last_cycle,
    {
        proof {
            reveal(BusState::byte_written);
        }
        let phys: u32 = addr & 0x1FFF_FFFF;
        match phys {
            0x0000_0000..=0x001F_FFFF => {
                self.ram[phys as usize] = value;
            },
            0x1F80_0000..=0x1F80_03FF => {
                self.scratchpad[(phys - 0x1F80_0000) as usize] = value;
            },
            0x1F80_1000..=0x1F80_2FFF => self.hw_write8(phys - 0x1F80_0000, value),
            _ => {},
        }
    }

    /// Writes a halfword. Nothing but main memory, the scratchpad and the hardware
    /// registers can be written.
    pub fn write16(&mut self, addr: u32, value: u16)
        requires
            old(self).wf(),
            old(self)@.timely(),
            write_fits(addr, 2),
        ensures
            final(self).wf(),
            final(self)@ == old(self)@.half_written(addr, value),
            final(self)@.last_cycle == old(self)@.last_cycle,
    {
        proof {
            reveal(BusState::half_written);
        }
        let phys: u32 = addr & 0x1FFF_FFFF;
        match phys {
            0x0000_0000..=0x001F_FFFF => write_le16(&mut self.ram, phys as usize, value),
            0x1F80_0000..=0x1F80_03FF => {
                write_le16(&mut self.scratchpad, (phys - 0x1F80_0000) as usize, value)
            },
            0x1F80_1000..=0x1F80_2FFF => self.hw_write16(phys - 0x1F80_0000, value),
            _ => {},
        }
    }

    /// Writes a word. Nothing but main memory, the scratchpad and the hardware
    /// registers can be written.
    pub fn write32(&mut self, addr: u32, value: u32)
        requires
            old(self).wf(),
            old(self)@.timely(),
            write_fits(addr, 4),
        ensures
            final(self).wf(),
            final(self)@ == old(self)@.word_written(addr, value),
            final(self)@.last_cycle == old(self)@.last_cycle,
    {
        proof {
            reveal(BusState::word_written);
        }
        let phys: u32 = addr & 0x1FFF_FFFF;
        match phys {
            0x0000_0000..=0x001F_FFFF => write_le32(&mut self.ram, phys as usize, value),
            0x1F80_0000..=0x1F80_03FF => {
                write_le32(&mut self.scratchpad, (phys - 0x1F80_0000) as usize, value)
            },
            0x1F80_1000..=0x1F80_2FFF => self.hw_write32(phys - 0x1F80_0000, value),
            _ => {},
        }
    }

    /// Handles the event in slot `i` of the scheduler.
    fn handle_event(&mut self, i: u32)
        requires
            old(self).wf(),
            old(self)@.timely(),
        ensures
            final(self).wf(),
            final(self)@ == old(self)@.event(i),
            final(self)@.last_cycle == old(self)@.last_cycle,
    {
        match i {
            0 => {
                self.sio.interrupt();
                self.set_irq(7);
            },
            2 => {
                let raised: bool = self.cdrom.interrupt();
                self.settle_cdrom(raised);
            },
            3 => {
                let raised: bool = self.cdrom.read_interrupt();
                self.settle_cdrom(raised);
            },
            4 => self.dma_gpu_interrupt(),
            9 => self.dma_otc_interrupt(),
            13 => {
                self.cdrom.lid_seek_interrupt();
                self.settle_cdrom(false);
            },
            _ => {},
        }
    }

    /// Handles the events that the scheduler reports as fired, lowest slot
    /// first.
    pub fn handle_fired_interrupts(&mut self, fired: u32)
        requires
            old(self).wf(),
            old(self)@.timely(),
        ensures
            final(self).wf(),
            final(self)@ == old(self)@.events(fired, 16),
            final(self)@.last_cycle == old(self)@.last_cycle,
    {
        let mut i: u32 = 0;
        assert(self@ == self@.events(fired, 0)) by {
            reveal(BusState::events);
        }
        while i < 16
            invariant
                i <= 16,
                self.wf(),
                self@.timely(),
                self@.last_cycle == old(self)@.last_cycle,
                self@ == old(self)@.events(fired, i as nat),
            decreases 16 - i,
        {
            proof {
                reveal(BusState::events);
            }
            if fired & (1u32 << i) != 0 {
                self.handle_event(i);
            }
            i += 1;
        }
    }

    /// Adds a character to what programs have printed.
    pub fn print(&mut self, ch: u8)
        requires
            old(self).wf(),
        ensures
            final(self).wf(),
            final(self)@ == (BusState {
                console: old(self)@.console.push(ch),
                ..old(self)@
            }),
    {
        self.console.push(ch);
    }
}

} // verus!
