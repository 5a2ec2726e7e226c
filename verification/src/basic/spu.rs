//! A sound processor that only has its control and status registers.

use vstd::prelude::*;

verus! {

/// The size of sound memory.
pub const RAM_SIZE: usize = 0x8_0000;

/// The control register.
pub const SPUCNT: u32 = 0x1AA;

/// The status register.
pub const SPUSTAT: u32 = 0x1AE;

pub struct Spu {
    pub ram: Vec<u8>,
    pub spucnt: u16,
    pub spustat: u16,
    pub main_volume_left: i16,
    pub main_volume_right: i16,
}

impl Spu {
    /// The value of a register; those that do not exist read as zero.
    pub open spec fn reg(self, offset: u32) -> u16 {
        if offset == SPUCNT {
            self.spucnt
        } else if offset == SPUSTAT {
            self.spustat
        } else {
            0
        }
    }

    /// The processor after a register has been written: the low bits of the
    /// control register show in the status register, and other writes are
    /// dropped.
    pub open spec fn written(self, offset: u32, value: u16) -> Spu {
        if offset == SPUCNT {
            Spu {
                spucnt: value,
                spustat: (self.spustat & !0x3Fu16) | (value & 0x3F),
                ..self
            }
        } else {
            self
        }
    }

    /// The processor after power-on.
    pub fn new() -> (r: Spu)
        ensures
            r.ram@ == Seq::new(RAM_SIZE as nat, |i: int| 0u8),
            r.spucnt == 0,
            r.spustat == 0,
            r.main_volume_left == 0,
            r.main_volume_right == 0,
    {
        let r = Spu {
            ram: vec![0u8; RAM_SIZE],
            spucnt: 0,
            spustat: 0,
            main_volume_left: 0,
            main_volume_right: 0,
        };
        assert(r.ram@ =~= Seq::new(RAM_SIZE as nat, |i: int| 0u8));
        r
    }

    /// Reads a register.
    pub fn read16(&self, offset: u32) -> (v: u16)
        ensures
            v == self.reg(offset),
    {
        match offset {
            SPUCNT => self.spucnt,
            SPUSTAT => self.spustat,
            _ => 0,
        }
    }

    /// Writes a register.
    pub fn write16(&mut self, offset: u32, value: u16)
        ensures
            *final(self) == old(self).written(offset, value),
    {
        if offset == SPUCNT {
            self.spucnt = value;
            self.spustat = (self.spustat & !0x3Fu16) | (value & 0x3F);
        }
    }
}

/// The control register reads back, and its low six bits show in the status
/// register.
pub proof fn law_status_mirrors_control(s: Spu, value: u16)
    ensures
        s.written(SPUCNT, value).reg(SPUCNT) == value,
        s.written(SPUCNT, value).reg(SPUSTAT) & 0x3F == value & 0x3F,
{
    crate::bits::lemma_half_of(s.spustat, value);
}

} // verus!
