//! The processor's registers.

use vstd::array::spec_array_update;
use vstd::prelude::*;

verus! {

/// Coprocessor 0 registers.
pub const CP0_INDEX: usize = 0;

pub const CP0_RANDOM: usize = 1;

pub const CP0_ENTRYLO: usize = 2;

pub const CP0_BPC: usize = 3;

pub const CP0_CONTEXT: usize = 4;

pub const CP0_BDA: usize = 5;

pub const CP0_PIDMASK: usize = 6;

pub const CP0_DCIC: usize = 7;

pub const CP0_BADVADDR: usize = 8;

pub const CP0_BDAM: usize = 9;

pub const CP0_ENTRYHI: usize = 10;

pub const CP0_BPCM: usize = 11;

pub const CP0_STATUS: usize = 12;

pub const CP0_CAUSE: usize = 13;

pub const CP0_EPC: usize = 14;

pub const CP0_PRID: usize = 15;

/// The names of the general purpose registers.
pub const GPR_NAMES: [&'static str; 32] = [
    "zero", "at", "v0", "v1", "a0", "a1", "a2", "a3", "t0", "t1", "t2", "t3", "t4", "t5", "t6",
    "t7", "s0", "s1", "s2", "s3", "s4", "s5", "s6", "s7", "t8", "t9", "k0", "k1", "gp", "sp",
    "fp", "ra",
];

/// The registers, with the cycle count and the instruction being executed.
#[derive(Clone)]
pub struct Registers {
    /// General purpose registers; register 0 is always zero.
    pub gpr: [u32; 32],
    pub hi: u32,
    pub lo: u32,
    pub pc: u32,
    pub cp0: [u32; 32],
    /// Coprocessor 2 data registers.
    pub cp2d: [u32; 32],
    /// Coprocessor 2 control registers.
    pub cp2c: [u32; 32],
    pub cycle: u64,
    pub current_instruction: u32,
}

impl Registers {
    /// All registers zero.
    pub open spec fn is_cleared(self) -> bool {
        &&& forall|i: int| 0 <= i < 32 ==> self.gpr[i] == 0
        &&& forall|i: int| 0 <= i < 32 ==> self.cp0[i] == 0
        &&& forall|i: int| 0 <= i < 32 ==> self.cp2d[i] == 0
        &&& forall|i: int| 0 <= i < 32 ==> self.cp2c[i] == 0
        &&& self.hi == 0
        &&& self.lo == 0
        &&& self.pc == 0
        &&& self.cycle == 0
        &&& self.current_instruction == 0
    }

    /// The registers with a general purpose register written; writes to
    /// register 0 are dropped.
    pub open spec fn with_gpr(self, i: int, v: u32) -> Registers {
        if i == 0 {
            self
        } else {
            Registers { gpr: spec_array_update(self.gpr, i, v), ..self }
        }
    }

    /// The registers with a coprocessor 0 register written.
    pub open spec fn with_cp0(self, i: int, v: u32) -> Registers {
        Registers { cp0: spec_array_update(self.cp0, i, v), ..self }
    }

    pub fn new() -> (r: Registers)
        ensures
            r.is_cleared(),
    {
        Registers {
            gpr: [0; 32],
            hi: 0,
            lo: 0,
            pc: 0,
            cp0: [0; 32],
            cp2d: [0; 32],
            cp2c: [0; 32],
            cycle: 0,
            current_instruction: 0,
        }
    }

    /// Writes a general purpose register; register 0 stays zero.
    pub fn set_gpr(&mut self, index: usize, value: u32)
        requires
            index < 32,
        ensures
            *final(self) == old(self).with_gpr(index as int, value),
    {
        if index != 0 {
            self.gpr[index] = value;
        }
    }
}

} // verus!
