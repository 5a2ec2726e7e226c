//! The processor.

pub mod exceptions;
pub mod flow;
pub mod icache;
pub mod interpreter;
pub mod isa;
pub mod laws;
pub mod registers;
pub mod semantics;
pub mod start_laws;
pub mod state;
pub mod trace;

use crate::bus::Bus;
use crate::bus::boot::boot_plan;
use crate::bus::state::read_fits;
use crate::cpu::exceptions::exception_raw;
use crate::cpu::registers::{CP0_CAUSE, CP0_PRID, CP0_STATUS, Registers};
use vstd::prelude::*;

verus! {

/// A load or a jump that takes effect one instruction late.
#[derive(Clone, Copy)]
pub struct DelayedLoadSlot {
    /// The register that is loaded.
    pub index: u32,
    pub value: u32,
    /// The bits of the register that stay.
    pub mask: u32,
    /// Where the jump goes.
    pub pc_value: u32,
    pub active: bool,
    pub pc_active: bool,
}

/// The processor.
pub struct Cpu {
    pub regs: Registers,
    pub icache_addr: [u32; 1024],
    pub icache_code: [u32; 1024],
    pub delayed_load: [DelayedLoadSlot; 2],
    pub current_delayed_load: usize,
    pub in_delay_slot: bool,
    pub next_is_delay_slot: bool,
    /// Whether the game on the disc is to be started as soon as the BIOS shell
    /// is reached. Starting it clears this.
    pub fast_boot: bool,
}

impl Default for DelayedLoadSlot {
    fn default() -> (s: DelayedLoadSlot)
        ensures
            s == DelayedLoadSlot::empty(),
    {
        DelayedLoadSlot {
            index: 0,
            value: 0,
            mask: 0,
            pc_value: 0,
            active: false,
            pc_active: false,
        }
    }
}

impl Cpu {
    /// A processor with all registers zero.
    pub fn new() -> (cpu: Cpu)
        ensures
            cpu.wf(),
            cpu.regs.is_cleared(),
            cpu.is_idle(),
            !cpu.fast_boot,
    {
        Cpu {
            regs: Registers::new(),
            icache_addr: [0xFFFF_FFFF; 1024],
            icache_code: [0; 1024],
            delayed_load: [DelayedLoadSlot::default(), DelayedLoadSlot::default()],
            current_delayed_load: 0,
            in_delay_slot: false,
            next_is_delay_slot: false,
            fast_boot: false,
        }
    }

    /// Resets the processor to the start of the BIOS.
    pub fn reset(&mut self)
        ensures
            final(self).wf(),
            final(self).is_reset(),
            final(self).fast_boot == old(self).fast_boot,
    {
        self.regs = Registers::new();
        let ghost cleared = self.regs;
        self.regs.pc = 0xBFC0_0000;
        self.regs.cp0[CP0_STATUS] = 0x1090_0000;
        self.regs.cp0[CP0_PRID] = 0x0000_0002;
        assert(cleared.is_cleared());
        self.delayed_load = [DelayedLoadSlot::default(), DelayedLoadSlot::default()];
        self.current_delayed_load = 0;
        self.in_delay_slot = false;
        self.next_is_delay_slot = false;
        self.icache_addr = [0xFFFF_FFFF; 1024];
        self.icache_code = [0; 1024];
    }

    /// Starts a load that arrives after the next instruction.
    fn delayed_load(&mut self, reg: u32, value: u32)
        requires
            old(self).wf(),
            reg < 32,
        ensures
            final(self).wf(),
            *final(self) == old(self).load_delayed(reg, value, 0),
    {
        self.delayed_load_masked(reg, value, 0);
    }

    /// Starts a load that keeps the register's bits under `mask`.
    fn delayed_load_masked(&mut self, reg: u32, value: u32, mask: u32)
        requires
            old(self).wf(),
            reg < 32,
        ensures
            final(self).wf(),
            *final(self) == old(self).load_delayed(reg, value, mask),
    {
        let i: usize = self.current_delayed_load;
        self.delayed_load[i].active = true;
        self.delayed_load[i].index = reg;
        self.delayed_load[i].value = value;
        self.delayed_load[i].mask = mask;
        proof {
            let goal = old(self).load_delayed(reg, value, mask);
            assert(self.delayed_load =~= goal.delayed_load);
        }
    }

    fn delayed_pc_load(&mut self, value: u32)
        requires
            old(self).wf(),
        ensures
            final(self).wf(),
            *final(self) == old(self).with_slot(
                old(self).current_delayed_load as int,
                (DelayedLoadSlot {
                    pc_active: true,
                    pc_value: value,
                    ..old(self).delayed_load[old(self).current_delayed_load as int]
                }),
            ),
    {
        let i: usize = self.current_delayed_load;
        self.delayed_load[i].pc_active = true;
        self.delayed_load[i].pc_value = value;
        proof {
            let goal = old(self).with_slot(
                i as int,
                DelayedLoadSlot {
                    pc_active: true,
                    pc_value: value,
                    ..old(self).delayed_load[i as int]
                },
            );
            assert(self.delayed_load =~= goal.delayed_load);
        }
    }

    /// Lets the load in the current slot arrive.
    fn flush_current_delayed_load(&mut self)
        requires
            old(self).wf(),
        ensures
            final(self).wf(),
            *final(self) == old(self).load_flushed(),
    {
        let slot: DelayedLoadSlot = self.delayed_load[self.current_delayed_load];
        if slot.active {
            let reg: usize = slot.index as usize;
            if reg != 0 {
                let current: u32 = self.regs.gpr[reg];
                self.regs.gpr[reg] = (current & slot.mask) | slot.value;
            }
            self.delayed_load[self.current_delayed_load].active = false;
        }
    }

    /// Drops the previous instruction's load if it goes to register `index`.
    fn cancel_delayed_load(&mut self, index: u32)
        requires
            old(self).wf(),
        ensures
            final(self).wf(),
            *final(self) == old(self).load_cancelled(index),
    {
        let other: usize = 1 - self.current_delayed_load;
        if self.delayed_load[other].index == index {
            self.delayed_load[other].active = false;
        }
    }

    /// Starts a jump that is taken after the next instruction.
    fn branch(&mut self, target: u32)
        requires
            old(self).wf(),
        ensures
            final(self).wf(),
            *final(self) == old(self).branched(target),
    {
        self.next_is_delay_slot = true;
        self.delayed_pc_load(target);
    }

    /// Takes a software interrupt that is pending and enabled. Hardware
    /// interrupts are only tested after branches. The bus is not touched.
    pub fn test_sw_ints(&mut self, bus: &mut Bus)
        requires
            old(self).wf(),
        ensures
            final(self).wf(),
            *final(self) == old(self).sw_ints_tested(),
            *final(bus) == *old(bus),
    {
        let cause: u32 = self.regs.cp0[CP0_CAUSE];
        let status: u32 = self.regs.cp0[CP0_STATUS];
        if cause & status & 0x0300 != 0 && status & 0x1 != 0 {
            let in_delay_slot: bool = self.in_delay_slot;
            self.in_delay_slot = false;
            exception_raw(self, cause, in_delay_slot);
        }
    }

    /// Brings the bus up to date after a branch and takes a hardware interrupt
    /// that is pending and enabled.
    fn branch_test(&mut self, bus: &mut Bus)
        requires
            old(self).wf(),
            old(bus).wf(),
            old(self).regs.cycle + 0xFFFF_FFFF <= u64::MAX,
        ensures
            final(self).wf(),
            final(bus).wf(),
            (*final(self), final(bus)@) == old(self).branch_tested(old(bus)@),
    {
        let cycle: u64 = self.regs.cycle;
        bus.last_cycle = cycle;
        if cycle >= bus.timers.next_counter {
            bus.timers.update(cycle);
            bus.drain_timer_irqs();
        }
        if bus.scheduler.interrupt_flags != 0 && bus.scheduler.lowest_target <= cycle {
            let fired: u32 = bus.scheduler.check_interrupts(cycle);
            bus.handle_fired_interrupts(fired);
        }
        let istat: u32 = bus.read_istat();
        let imask: u32 = bus.read_imask();
        if istat & imask != 0 && self.regs.cp0[CP0_STATUS] & 0x401 == 0x401 {
            exception_raw(self, 0x400, false);
        }
    }

    /// Prints a character, if it can be shown.
    fn print_char(bus: &mut Bus, ch: u8)
        requires
            old(bus).wf(),
        ensures
            final(bus).wf(),
            final(bus)@ == old(bus)@.printed(ch),
    {
        if ch != 0 && ch < 0x80 {
            bus.print(ch);
        }
    }

    /// Prints `len` characters from `addr` on.
    fn print_block(bus: &mut Bus, addr: u32, len: u32)
        requires
            old(bus).wf(),
        ensures
            final(bus).wf(),
            final(bus)@ == old(bus)@.printed_block(addr, len as nat),
    {
        let mut at: u32 = addr;
        let mut left: u32 = len;
        while left > 0
            invariant
                bus.wf(),
                bus@.printed_block(at, left as nat) == old(bus)@.printed_block(
                    addr,
                    len as nat,
                ),
            decreases left,
        {
            let ch: u8 = bus.read8(at);
            Self::print_char(bus, ch);
            at = at.wrapping_add(1);
            left -= 1;
        }
    }

    /// Prints the characters from `addr` up to a zero, at most 1024.
    fn print_string(bus: &mut Bus, addr: u32)
        requires
            old(bus).wf(),
        ensures
            final(bus).wf(),
            final(bus)@ == old(bus)@.printed_string(addr, 1024),
    {
        let mut at: u32 = addr;
        let mut left: u32 = 1024;
        while left > 0
            invariant
                bus.wf(),
                bus@.printed_string(at, left as nat) == old(bus)@.printed_string(addr, 1024),
            decreases left,
        {
            let ch: u8 = bus.read8(at);
            if ch == 0 {
                return;
            }
            Self::print_char(bus, ch);
            at = at.wrapping_add(1);
            left -= 1;
        }
    }

    /// Starts the game on the disc, if there is one, in place of the BIOS shell.
    fn start_game(&mut self, bus: &mut Bus)
        requires
            old(self).wf(),
            old(bus).wf(),
        ensures
            final(self).wf(),
            final(bus).wf(),
            match boot_plan(old(bus)@.cdrom) {
                Some(image) => {
                    &&& *final(self) == old(self).game_started(image)
                    &&& final(bus)@ == old(bus)@.booted(image)
                },
                _ => *final(self) == *old(self) && final(bus)@ == old(bus)@,
            },
    {
        match bus.fast_boot() {
            Some((entry_pc, gp, sp)) => {
                self.regs.pc = entry_pc;
                if gp != 0 {
                    self.regs.gpr[28] = gp;
                }
                self.regs.gpr[29] = sp;
                self.regs.gpr[30] = sp;
                let status: u32 = self.regs.cp0[CP0_STATUS];
                self.regs.cp0[CP0_STATUS] = status | 0x4000_0000;
                self.in_delay_slot = false;
                self.next_is_delay_slot = false;
                self.delayed_load = [DelayedLoadSlot::default(), DelayedLoadSlot::default()];
            },
            None => {},
        }
    }

    /// Intercepts BIOS calls: starts the game on the disc when the shell is
    /// reached, and prints what programs print.
    fn intercept_bios(&mut self, bus: &mut Bus)
        requires
            old(self).wf(),
            old(bus).wf(),
        ensures
            final(self).wf(),
            final(bus).wf(),
            (*final(self), final(bus)@) == old(self).intercepted(old(bus)@),
            final(self).regs.cycle == old(self).regs.cycle,
    {
        let pc: u32 = self.regs.pc;
        let call: u32 = self.regs.gpr[9] & 0xFF;
        if self.fast_boot && pc == 0x8003_0000 && bus.cdrom.has_disc() {
            self.fast_boot = false;
            self.start_game(bus);
            return;
        }
        match (pc, call) {
            (0xA0, 0x03) | (0xB0, 0x35) => {
                if self.regs.gpr[4] == 1 {
                    Self::print_block(bus, self.regs.gpr[5], self.regs.gpr[6]);
                }
            },
            (0xA0, 0x09) | (0xA0, 0x3C) | (0xB0, 0x3B) | (0xB0, 0x3D) => {
                Self::print_char(bus, self.regs.gpr[4] as u8);
            },
            (0xA0, 0x3E) | (0xB0, 0x3F) => {
                Self::print_string(bus, self.regs.gpr[4]);
            },
            _ => {},
        }
    }

    /// Lets the load and the jump of the previous instruction take effect.
    fn retire(&mut self)
        requires
            old(self).wf(),
        ensures
            final(self).wf(),
            *final(self) == old(self).retired(),
    {
        self.current_delayed_load = 1 - self.current_delayed_load;
        self.flush_current_delayed_load();
        let i: usize = self.current_delayed_load;
        if self.delayed_load[i].pc_active {
            self.regs.pc = self.delayed_load[i].pc_value;
            self.delayed_load[i].pc_active = false;
        }
    }

    /// Fetches and executes an instruction and retires it.
    fn advance(&mut self, bus: &mut Bus)
        requires
            old(self).wf(),
            old(bus).wf(),
            read_fits(old(self).regs.pc, 4),
            old(self).regs.cycle + 2 + 0xFFFF_FFFF <= u64::MAX,
        ensures
            final(self).wf(),
            final(bus).wf(),
            (*final(self), final(bus)@) == old(self).advanced(old(bus)@),
            final(self).regs.cycle == old(self).regs.cycle + 2,
    {
        if self.next_is_delay_slot {
            self.in_delay_slot = true;
            self.next_is_delay_slot = false;
        }
        let pc: u32 = self.regs.pc;
        let code: u32 = self.read_icache(pc, bus);
        self.regs.current_instruction = code;
        self.regs.pc = pc.wrapping_add(4);
        self.regs.cycle += 2;
        bus.last_cycle = self.regs.cycle;
        assert(*self == old(self).fetched(code));
        self.execute(bus, code);
        self.retire();
    }

    /// Executes one instruction. Nothing is read from the bus but what the
    /// instruction and the BIOS calls ask for.
    pub fn step(&mut self, bus: &mut Bus)
        requires
            old(self).wf(),
            old(bus).wf(),
            read_fits(old(self).regs.pc, 4),
            old(self).regs.cycle + 2 + 0xFFFF_FFFF <= u64::MAX,
        ensures
            final(self).wf(),
            final(bus).wf(),
            (*final(self), final(bus)@) == old(self).stepped(old(bus)@),
    {
        self.advance(bus);
        if self.in_delay_slot {
            self.in_delay_slot = false;
            self.intercept_bios(bus);
            self.branch_test(bus);
        }
    }
}

} // verus!
