//! The state of the bus and what each access does to it.

use crate::bus::dma::DmaController;
use crate::cdrom::{CdInterrupt, CdIrqType, CdState};
use crate::gpu::commands::GpuModel;
use crate::gpu::status::GpuStatus;
use crate::scheduler::{PsxInt, Scheduler};
use crate::sio::{IRQ_FLAG, SioState};
use crate::spu::SpuState;
use crate::timers::Timers;
use crate::word::{le16, le32, put16, put32};
use vstd::prelude::*;

verus! {

pub const RAM_SIZE: usize = 0x0020_0000;

pub const BIOS_SIZE: usize = 0x0008_0000;

pub const SCRATCHPAD_SIZE: usize = 0x400;

pub const HW_SIZE: usize = 0x1_0000;

/// The interrupt status register.
pub const ISTAT: u32 = 0x1070;

/// The interrupt mask register.
pub const IMASK: u32 = 0x1074;

/// The DMA control register.
pub const DPCR: u32 = 0x10F0;

/// The DMA interrupt register.
pub const DICR: u32 = 0x10F4;

/// Everything the processor reaches over the bus.
pub struct BusState {
    pub ram: Seq<u8>,
    pub bios: Seq<u8>,
    pub scratchpad: Seq<u8>,
    /// The hardware registers that only store what is written.
    pub hw: Seq<u8>,
    pub gpu: GpuModel,
    pub spu: SpuState,
    pub cdrom: CdState,
    pub timers: Timers,
    pub scheduler: Scheduler,
    pub sio: SioState,
    pub dma: DmaController,
    pub last_cycle: u64,
    /// The characters that programs have printed.
    pub console: Seq<u8>,
}

/// The physical address: the top three bits choose a mirror.
pub open spec fn physical(addr: u32) -> u32 {
    addr & 0x1FFF_FFFF
}

pub open spec fn in_ram(p: u32) -> bool {
    p < 0x0020_0000
}

pub open spec fn in_expansion(p: u32) -> bool {
    0x1F00_0000 <= p < 0x1F80_0000
}

pub open spec fn in_scratchpad(p: u32) -> bool {
    0x1F80_0000 <= p < 0x1F80_0400
}

pub open spec fn in_hardware(p: u32) -> bool {
    0x1F80_1000 <= p < 0x1F80_3000
}

pub open spec fn in_bios(p: u32) -> bool {
    0x1FC0_0000 <= p < 0x1FC8_0000
}

/// Where a physical address lies in the hardware register area.
pub open spec fn hw_offset(p: u32) -> u32 {
    (p - 0x1F80_0000) as u32
}

/// Whether `n` bytes at `addr` do not run over the end of a writable memory.
pub open spec fn write_fits(addr: u32, n: int) -> bool {
    let p = physical(addr);
    &&& in_ram(p) ==> p + n <= 0x0020_0000
    &&& in_scratchpad(p) ==> p + n <= 0x1F80_0400
}

/// Whether `n` bytes at `addr` do not run over the end of a memory.
pub open spec fn read_fits(addr: u32, n: int) -> bool {
    let p = physical(addr);
    &&& write_fits(addr, n)
    &&& in_bios(p) ==> p + n <= 0x1FC8_0000
}

/// The root counter register at a hardware offset: the counter, and 0 for its
/// value, 4 for its mode or 8 for its target.
pub open spec fn timer_register(off: u32) -> Option<(int, u32)> {
    if 0x1100 <= off < 0x1130 && (off % 0x10 == 0 || off % 0x10 == 4 || off % 0x10 == 8) {
        Some(((off - 0x1100) / 0x10, off % 0x10))
    } else {
        None
    }
}

/// The slot that a CD-ROM event is scheduled in.
pub open spec fn cd_slot(irq_type: CdIrqType) -> PsxInt {
    match irq_type {
        CdIrqType::Command => PsxInt::CdRom,
        CdIrqType::Read => PsxInt::CdRead,
        CdIrqType::Lid => PsxInt::CdRomLid,
    }
}

/// The schedule with the given CD-ROM events in it.
pub open spec fn cd_scheduled(s: Scheduler, events: Seq<CdInterrupt>, cycle: u64) -> Scheduler
    decreases events.len(),
{
    if events.len() == 0 {
        s
    } else {
        cd_scheduled(s, events.drop_last(), cycle).scheduled(
            cd_slot(events.last().irq_type),
            cycle,
            events.last().delay,
        )
    }
}

/// The DMA interrupt register with its master flag worked out: set if the
/// master enable is and some channel is both flagged and enabled.
pub open spec fn with_master_flag(dicr: u32) -> u32 {
    if master_flag(dicr) {
        (dicr & 0x7FFF_FFFF) | 0x8000_0000
    } else {
        dicr & 0x7FFF_FFFF
    }
}

pub open spec fn master_flag(dicr: u32) -> bool {
    dicr & (1u32 << 23u32) != 0 && ((dicr >> 24u32) & 0x7F) & ((dicr >> 16u32) & 0x7F) != 0
}

/// The DMA interrupt register after a write: flags are cleared by writing one,
/// the writable bits are taken over, and the master flag is worked out.
pub open spec fn dicr_written(before: u32, value: u32) -> u32 {
    let ack = value & 0x7F00_0000;
    with_master_flag((before & 0x7F00_0000 & !ack) | (value & 0x00FF_803F))
}

impl BusState {
    pub open spec fn wf(self) -> bool {
        &&& self.ram.len() == RAM_SIZE
        &&& self.bios.len() == BIOS_SIZE
        &&& self.scratchpad.len() == SCRATCHPAD_SIZE
        &&& self.hw.len() == HW_SIZE
        &&& self.gpu.wf()
        &&& self.spu.wf()
        &&& self.cdrom.wf()
        &&& self.timers.wf()
        &&& self.sio.wf()
    }

    /// The cycle count leaves room to schedule any event.
    pub open spec fn timely(self) -> bool {
        self.last_cycle + 0xFFFF_FFFF <= u64::MAX
    }

    /// The bus after power-on, with an empty BIOS.
    pub open spec fn powered_on(self) -> bool {
        &&& self.ram == Seq::new(RAM_SIZE as nat, |i: int| 0u8)
        &&& self.bios == Seq::new(BIOS_SIZE as nat, |i: int| 0u8)
        &&& self.scratchpad == Seq::new(SCRATCHPAD_SIZE as nat, |i: int| 0u8)
        &&& self.hw == Seq::new(HW_SIZE as nat, |i: int| 0u8)
        &&& self.gpu == GpuModel::initial()
        &&& self.spu == SpuState::initial()
        &&& self.cdrom == CdState::initial()
        &&& self.timers.powered_on()
        &&& self.scheduler.is_empty()
        &&& self.sio == SioState::initial()
        &&& self.last_cycle == 0
        &&& self.console == Seq::<u8>::empty()
    }

    pub open spec fn reg16(self, off: u32) -> u16 {
        le16(self.hw, off as int)
    }

    pub open spec fn reg32(self, off: u32) -> u32 {
        le32(self.hw, off as int)
    }

    pub open spec fn with_reg16(self, off: u32, v: u16) -> BusState {
        BusState { hw: put16(self.hw, off as int, v), ..self }
    }

    pub open spec fn with_reg32(self, off: u32, v: u32) -> BusState {
        BusState { hw: put32(self.hw, off as int, v), ..self }
    }

    pub open spec fn istat(self) -> u32 {
        self.reg32(ISTAT)
    }

    pub open spec fn imask(self) -> u32 {
        self.reg32(IMASK)
    }

    /// The bus with an interrupt line raised.
    pub open spec fn irq_set(self, bit: u32) -> BusState {
        self.with_reg32(ISTAT, self.istat() | (1u32 << bit))
    }

    /// The bus with the timers' interrupts moved to the interrupt status. Each
    /// vertical blank changes the field shown by the graphics status.
    pub open spec fn timers_drained(self) -> BusState {
        let irqs = self.timers.pending_irqs;
        let s = BusState { timers: Timers { pending_irqs: 0, ..self.timers }, ..self };
        if irqs == 0 {
            s
        } else {
            let t = s.with_reg32(ISTAT, s.istat() | irqs);
            if irqs & 0x01 != 0 {
                BusState {
                    gpu: GpuModel {
                        status: GpuStatus { raw: t.gpu.status.raw ^ 0x8000_0000u32 },
                        ..t.gpu
                    },
                    ..t
                }
            } else {
                t
            }
        }
    }

    /// The bus with the serial port's interrupt request scheduled.
    pub open spec fn sio_drained(self) -> BusState {
        if self.sio.pending_irq {
            BusState {
                sio: SioState { pending_irq: false, ..self.sio },
                scheduler: self.scheduler.scheduled(
                    PsxInt::Sio,
                    self.last_cycle,
                    self.sio.pending_irq_delay,
                ),
                ..self
            }
        } else {
            self
        }
    }

    /// The bus with the CD-ROM's events scheduled.
    pub open spec fn cdrom_drained(self) -> BusState {
        BusState {
            cdrom: CdState { pending: Seq::empty(), ..self.cdrom },
            scheduler: cd_scheduled(self.scheduler, self.cdrom.pending, self.last_cycle),
            ..self
        }
    }

    /// The bus with a new state of the CD-ROM, which has raised its interrupt
    /// line or not.
    pub open spec fn cdrom_moved(self, cdrom: CdState, raised: bool) -> BusState {
        let s = BusState { cdrom, ..self };
        (if raised {
            s.irq_set(2)
        } else {
            s
        }).cdrom_drained()
    }

    /// The value of a root counter register.
    pub open spec fn timer_value(self, i: int, reg: u32) -> u32 {
        if reg == 0 {
            self.timers.updated(self.last_cycle).rcnts[i].value(self.last_cycle)
        } else if reg == 4 {
            self.timers.updated(self.last_cycle).rcnts[i].mode as u32
        } else {
            self.timers.rcnts[i].target as u32
        }
    }

    /// The bus after a root counter register has been read.
    pub open spec fn timer_read(self, i: int, reg: u32) -> BusState {
        if reg == 0 {
            (BusState {
                timers: self.timers.updated(self.last_cycle),
                ..self
            }).timers_drained()
        } else if reg == 4 {
            (BusState {
                timers: self.timers.mode_read(i, self.last_cycle),
                ..self
            }).timers_drained()
        } else {
            self
        }
    }

    /// The bus after a root counter register has been written.
    pub open spec fn timer_written(self, i: int, reg: u32, value: u32) -> BusState {
        (BusState {
            timers: if reg == 0 {
                self.timers.counter_written(i, value, self.last_cycle)
            } else if reg == 4 {
                self.timers.mode_written(i, value, self.last_cycle)
            } else {
                self.timers.target_written(i, value, self.last_cycle)
            },
            ..self
        }).timers_drained()
    }

    pub open spec fn sio_byte_read(self) -> BusState {
        BusState { sio: self.sio.byte_read(), ..self }
    }

    pub open spec fn sio_byte_written(self, value: u8) -> BusState {
        (BusState { sio: self.sio.byte_written(value), ..self }).sio_drained()
    }

    /// The bus after a write to the serial port's control register. A reset
    /// withdraws the interrupt that was scheduled.
    pub open spec fn sio_controlled(self, value: u16) -> BusState {
        let s = BusState { sio: self.sio.ctrl_written(value), ..self };
        (if value & 0x0040 != 0 {
            BusState { scheduler: s.scheduler.cancelled(PsxInt::Sio), ..s }
        } else {
            s
        }).sio_drained()
    }

    pub open spec fn spu_read(self, off: u32) -> BusState {
        BusState { spu: self.spu.after_read(off), ..self }
    }

    pub open spec fn spu_written(self, off: u32, value: u16) -> BusState {
        BusState { spu: self.spu.written(off, value), ..self }
    }

    /// What reading a byte of the hardware area gives.
    pub open spec fn hw_byte(self, off: u32) -> u8 {
        if off == 0x1040 {
            self.sio.next_byte()
        } else if 0x1800 <= off <= 0x1803 {
            self.cdrom.port((off - 0x1800) as u32)
        } else {
            self.hw[off as int]
        }
    }

    pub open spec fn hw_byte_read(self, off: u32) -> BusState {
        if off == 0x1040 {
            self.sio_byte_read()
        } else if 0x1800 <= off <= 0x1803 {
            BusState { cdrom: self.cdrom.port_read((off - 0x1800) as u32), ..self }
        } else {
            self
        }
    }

    /// What reading a halfword of the hardware area gives.
    pub open spec fn hw_half(self, off: u32) -> u16 {
        if off == 0x1040 {
            self.sio.next_byte() as u16 | (self.sio.byte_read().next_byte() as u16) << 8u16
        } else if off == 0x1044 {
            self.sio.status as u16
        } else if off == 0x1048 {
            self.sio.mode
        } else if off == 0x104A {
            self.sio.control
        } else if off == 0x104E {
            self.sio.baud
        } else if let Some((i, reg)) = timer_register(off) {
            self.timer_value(i, reg) as u16
        } else if 0x1C00 <= off <= 0x1FFF {
            self.spu.reg((off - 0x1C00) as u32)
        } else {
            self.reg16(off)
        }
    }

    pub open spec fn hw_half_read(self, off: u32) -> BusState {
        if off == 0x1040 {
            self.sio_byte_read().sio_byte_read()
        } else if let Some((i, reg)) = timer_register(off) {
            self.timer_read(i, reg)
        } else if 0x1C00 <= off <= 0x1FFF {
            self.spu_read((off - 0x1C00) as u32)
        } else {
            self
        }
    }

    /// What reading a word of the hardware area gives.
    pub open spec fn hw_word(self, off: u32) -> u32 {
        if off == 0x1040 {
            let s1 = self.sio.byte_read();
            let s2 = s1.byte_read();
            let s3 = s2.byte_read();
            self.sio.next_byte() as u32 | (s1.next_byte() as u32) << 8u32 | (s2.next_byte() as u32)
                << 16u32 | (s3.next_byte() as u32) << 24u32
        } else if off == 0x1044 {
            self.sio.status
        } else if off == 0x1810 {
            self.gpu.data_word()
        } else if off == 0x1814 {
            self.gpu.status.raw
        } else if let Some((i, reg)) = timer_register(off) {
            self.timer_value(i, reg)
        } else if 0x1C00 <= off <= 0x1FFF {
            let o = (off - 0x1C00) as u32;
            self.spu.reg(o) as u32 | (self.spu.after_read(o).reg((o + 2) as u32) as u32) << 16u32
        } else {
            self.reg32(off)
        }
    }

    pub open spec fn hw_word_read(self, off: u32) -> BusState {
        if off == 0x1040 {
            self.sio_byte_read().sio_byte_read().sio_byte_read().sio_byte_read()
        } else if off == 0x1810 {
            BusState { gpu: self.gpu.data_read(), ..self }
        } else if let Some((i, reg)) = timer_register(off) {
            self.timer_read(i, reg)
        } else if 0x1C00 <= off <= 0x1FFF {
            let o = (off - 0x1C00) as u32;
            self.spu_read(o).spu_read((o + 2) as u32)
        } else {
            self
        }
    }

    /// The bus after a byte has been written to the hardware area.
    pub open spec fn hw_byte_written(self, off: u32, value: u8) -> BusState {
        if off == 0x1040 {
            self.sio_byte_written(value)
        } else if 0x1800 <= off <= 0x1803 {
            let port = (off - 0x1800) as u32;
            self.cdrom_moved(
                self.cdrom.port_written(port, value),
                self.cdrom.write_raises(port, value),
            )
        } else {
            BusState { hw: self.hw.update(off as int, value), ..self }
        }
    }

    /// The bus after a halfword has been written to the hardware area. Writing
    /// the interrupt status clears the bits that are zero in the value.
    pub open spec fn hw_half_written(self, off: u32, value: u16) -> BusState {
        if off == 0x1040 {
            self.sio_byte_written(value as u8)
        } else if off == 0x1048 {
            BusState { sio: SioState { mode: value, ..self.sio }, ..self }
        } else if off == 0x104A {
            self.sio_controlled(value)
        } else if off == 0x104E {
            BusState { sio: SioState { baud: value, ..self.sio }, ..self }
        } else if off == ISTAT {
            self.with_reg16(ISTAT, self.reg16(ISTAT) & value)
        } else if let Some((i, reg)) = timer_register(off) {
            self.timer_written(i, reg, value as u32)
        } else if 0x1C00 <= off <= 0x1FFF {
            self.spu_written((off - 0x1C00) as u32, value)
        } else {
            self.with_reg16(off, value)
        }
    }

    /// The bus after a word has been written to the hardware area. Writing the
    /// control register of a DMA channel may run it.
    pub open spec fn hw_word_written(self, off: u32, value: u32) -> BusState {
        if off == 0x1040 {
            self.sio_byte_written(value as u8)
        } else if off == 0x1048 {
            BusState { sio: SioState { mode: value as u16, ..self.sio }, ..self }
        } else if off == 0x104A {
            self.sio_controlled(value as u16)
        } else if off == 0x104E {
            BusState { sio: SioState { baud: value as u16, ..self.sio }, ..self }
        } else if off == ISTAT {
            self.with_reg32(ISTAT, self.istat() & value)
        } else if 0x1080 <= off <= 0x10EF {
            let s = self.with_reg32(off, value);
            if off % 0x10 == 8 {
                s.dma_run((off - 0x1080) / 0x10, value)
            } else {
                s
            }
        } else if off == DICR {
            self.with_reg32(DICR, dicr_written(self.reg32(DICR), value))
        } else if off == 0x1810 {
            BusState { gpu: self.gpu.gp0(value), ..self }
        } else if off == 0x1814 {
            BusState { gpu: self.gpu.gp1(value), ..self }
        } else if let Some((i, reg)) = timer_register(off) {
            self.timer_written(
                i,
                reg,
                if reg == 8 {
                    value & 0xFFFF
                } else {
                    value
                },
            )
        } else if 0x1C00 <= off <= 0x1FFF {
            let o = (off - 0x1C00) as u32;
            self.spu_written(o, value as u16).spu_written(
                (o + 2) as u32,
                (value >> 16u32) as u16,
            )
        } else {
            self.with_reg32(off, value)
        }
    }

    /// What reading a byte gives.
    #[verifier::opaque]
    pub open spec fn byte(self, addr: u32) -> u8 {
        let p = physical(addr);
        if in_ram(p) {
            self.ram[p as int]
        } else if in_scratchpad(p) {
            self.scratchpad[p - 0x1F80_0000]
        } else if in_hardware(p) {
            self.hw_byte(hw_offset(p))
        } else if in_bios(p) {
            self.bios[p - 0x1FC0_0000]
        } else {
            0xFF
        }
    }

    /// The bus after a byte has been read.
    #[verifier::opaque]
    pub open spec fn byte_read(self, addr: u32) -> BusState {
        let p = physical(addr);
        if in_hardware(p) {
            self.hw_byte_read(hw_offset(p))
        } else {
            self
        }
    }

    /// What reading a halfword gives.
    #[verifier::opaque]
    pub open spec fn half(self, addr: u32) -> u16 {
        let p = physical(addr);
        if in_ram(p) {
            le16(self.ram, p as int)
        } else if in_scratchpad(p) {
            le16(self.scratchpad, p - 0x1F80_0000)
        } else if in_hardware(p) {
            self.hw_half(hw_offset(p))
        } else if in_bios(p) {
            le16(self.bios, p - 0x1FC0_0000)
        } else {
            0xFFFF
        }
    }

    /// The bus after a halfword has been read.
    #[verifier::opaque]
    pub open spec fn half_read(self, addr: u32) -> BusState {
        let p = physical(addr);
        if in_hardware(p) {
            self.hw_half_read(hw_offset(p))
        } else {
            self
        }
    }

    /// What reading a word gives.
    #[verifier::opaque]
    pub open spec fn word(self, addr: u32) -> u32 {
        let p = physical(addr);
        if in_ram(p) {
            le32(self.ram, p as int)
        } else if in_expansion(p) {
            0xFFFF_FFFF
        } else if in_scratchpad(p) {
            le32(self.scratchpad, p - 0x1F80_0000)
        } else if in_hardware(p) {
            self.hw_word(hw_offset(p))
        } else if in_bios(p) {
            le32(self.bios, p - 0x1FC0_0000)
        } else {
            0
        }
    }

    /// The bus after a word has been read.
    #[verifier::opaque]
    pub open spec fn word_read(self, addr: u32) -> BusState {
        let p = physical(addr);
        if in_hardware(p) {
            self.hw_word_read(hw_offset(p))
        } else {
            self
        }
    }

    /// The bus after a byte has been written.
    #[verifier::opaque]
    pub open spec fn byte_written(self, addr: u32, value: u8) -> BusState {
        let p = physical(addr);
        if in_ram(p) {
            BusState { ram: self.ram.update(p as int, value), ..self }
        } else if in_scratchpad(p) {
            BusState { scratchpad: self.scratchpad.update(p - 0x1F80_0000, value), ..self }
        } else if in_hardware(p) {
            self.hw_byte_written(hw_offset(p), value)
        } else {
            self
        }
    }

    /// The bus after a halfword has been written.
    #[verifier::opaque]
    pub open spec fn half_written(self, addr: u32, value: u16) -> BusState {
        let p = physical(addr);
        if in_ram(p) {
            BusState { ram: put16(self.ram, p as int, value), ..self }
        } else if in_scratchpad(p) {
            BusState {
                scratchpad: put16(self.scratchpad, p - 0x1F80_0000, value),
                ..self
            }
        } else if in_hardware(p) {
            self.hw_half_written(hw_offset(p), value)
        } else {
            self
        }
    }

    /// The bus after a word has been written.
    #[verifier::opaque]
    pub open spec fn word_written(self, addr: u32, value: u32) -> BusState {
        let p = physical(addr);
        if in_ram(p) {
            BusState { ram: put32(self.ram, p as int, value), ..self }
        } else if in_scratchpad(p) {
            BusState {
                scratchpad: put32(self.scratchpad, p - 0x1F80_0000, value),
                ..self
            }
        } else if in_hardware(p) {
            self.hw_word_written(hw_offset(p), value)
        } else {
            self
        }
    }

    /// The bus after the event in slot `i` of the scheduler has come.
    pub open spec fn event(self, i: u32) -> BusState {
        if i == 0 {
            (BusState {
                sio: SioState { status: self.sio.status | IRQ_FLAG, ..self.sio },
                ..self
            }).irq_set(7)
        } else if i == 2 {
            let c = self.cdrom.interrupted();
            self.cdrom_moved(c, self.cdrom.stat == 0 && c.raises())
        } else if i == 3 {
            self.cdrom_moved(self.cdrom.sector_read(), self.cdrom.sector_read_raises())
        } else if i == 4 {
            self.channel_done(2)
        } else if i == 9 {
            self.channel_done(6)
        } else if i == 13 {
            self.cdrom_moved(self.cdrom.lid_stepped(), false)
        } else {
            self
        }
    }

    /// The bus after those of the first `n` events that are in `fired`.
    #[verifier::opaque]
    pub open spec fn events(self, fired: u32, n: nat) -> BusState
        decreases n,
    {
        if n == 0 {
            self
        } else {
            let s = self.events(fired, (n - 1) as nat);
            let i = (n - 1) as u32;
            if fired & (1u32 << i) != 0 {
                s.event(i)
            } else {
                s
            }
        }
    }
}

} // verus!
