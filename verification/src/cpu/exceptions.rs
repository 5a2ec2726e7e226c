//! Exceptions.

use crate::bus::Bus;
use crate::cpu::registers::{CP0_CAUSE, CP0_EPC, CP0_STATUS};
use crate::cpu::Cpu;
use vstd::prelude::*;

verus! {

/// The causes of exceptions.
#[derive(Debug, Clone, Copy, PartialEq, Eq, Structural)]
pub enum Exception {
    Interrupt,
    LoadAddressError,
    StoreAddressError,
    InstructionBusError,
    DataBusError,
    Syscall,
    Break,
    ReservedInstruction,
    CoprocessorUnusable,
    ArithmeticOverflow,
}

impl Exception {
    /// The number of the cause.
    pub open spec fn code(self) -> u32 {
        match self {
            Exception::Interrupt => 0,
            Exception::LoadAddressError => 4,
            Exception::StoreAddressError => 5,
            Exception::InstructionBusError => 6,
            Exception::DataBusError => 7,
            Exception::Syscall => 8,
            Exception::Break => 9,
            Exception::ReservedInstruction => 10,
            Exception::CoprocessorUnusable => 11,
            Exception::ArithmeticOverflow => 12,
        }
    }

    /// The number of the cause.
    pub fn number(self) -> (r: u32)
        ensures
            r == self.code(),
    {
        match self {
            Exception::Interrupt => 0,
            Exception::LoadAddressError => 4,
            Exception::StoreAddressError => 5,
            Exception::InstructionBusError => 6,
            Exception::DataBusError => 7,
            Exception::Syscall => 8,
            Exception::Break => 9,
            Exception::ReservedInstruction => 10,
            Exception::CoprocessorUnusable => 11,
            Exception::ArithmeticOverflow => 12,
        }
    }
}

/// Enters an exception with the given cause register; `bd` tells whether the
/// instruction is in a delay slot.
pub fn exception_raw(cpu: &mut Cpu, code: u32, bd: bool)
    ensures
        *final(cpu) == old(cpu).vectored(code, bd),
{
    if bd {
        cpu.regs.cp0[CP0_CAUSE] = code | 0x8000_0000;
        cpu.regs.cp0[CP0_EPC] = cpu.regs.pc.wrapping_sub(4);
    } else {
        cpu.regs.cp0[CP0_CAUSE] = code;
        cpu.regs.cp0[CP0_EPC] = cpu.regs.pc;
    }
    let status: u32 = cpu.regs.cp0[CP0_STATUS];
    if status & 0x0040_0000 != 0 {
        cpu.regs.pc = 0xBFC0_0180;
    } else {
        cpu.regs.pc = 0x8000_0080;
    }
    cpu.regs.cp0[CP0_STATUS] = (status & !0x3Fu32) | ((status & 0x0F) << 2u32);
}

/// Takes an exception that the current instruction has caused. The bus is not
/// touched.
pub fn exception(cpu: &mut Cpu, bus: &mut Bus, exc: Exception)
    requires
        old(cpu).wf(),
    ensures
        *final(cpu) == old(cpu).trapped(exc),
        final(cpu).wf(),
        *final(bus) == *old(bus),
{
    cpu.regs.pc = cpu.regs.pc.wrapping_sub(4);
    let bd: bool = cpu.in_delay_slot;
    exception_raw(cpu, exc.number() << 2u32, bd);
    if bd {
        cpu.delayed_load[cpu.current_delayed_load].pc_active = false;
    }
}

} // verus!
