//! The processor's state and how its parts change.

use crate::bus::boot::{boot_plan, BootImage};
use crate::bus::state::BusState;
use crate::cpu::{Cpu, DelayedLoadSlot};
use crate::cpu::exceptions::Exception;
use crate::cpu::registers::{CP0_CAUSE, CP0_EPC, CP0_PRID, CP0_STATUS, Registers};
use vstd::array::spec_array_update;
use vstd::prelude::*;

verus! {

impl DelayedLoadSlot {
    /// A slot with nothing in it.
    pub open spec fn empty() -> DelayedLoadSlot {
        DelayedLoadSlot {
            index: 0,
            value: 0,
            mask: 0,
            pc_value: 0,
            active: false,
            pc_active: false,
        }
    }
}

impl Cpu {
    /// The delayed load slots name registers.
    pub open spec fn wf(self) -> bool {
        &&& self.current_delayed_load < 2
        &&& self.delayed_load[0].index < 32
        &&& self.delayed_load[1].index < 32
    }

    /// The other delayed load slot.
    pub open spec fn other_slot(self) -> int {
        1 - self.current_delayed_load
    }

    pub open spec fn reg(self, i: int) -> u32 {
        self.regs.gpr[i]
    }

    pub open spec fn status(self) -> u32 {
        self.regs.cp0[CP0_STATUS as int]
    }

    pub open spec fn with_reg(self, i: int, v: u32) -> Cpu {
        Cpu { regs: self.regs.with_gpr(i, v), ..self }
    }

    pub open spec fn with_cp0(self, i: int, v: u32) -> Cpu {
        Cpu { regs: self.regs.with_cp0(i, v), ..self }
    }

    pub open spec fn with_pc(self, v: u32) -> Cpu {
        Cpu { regs: Registers { pc: v, ..self.regs }, ..self }
    }

    pub open spec fn with_slot(self, i: int, slot: DelayedLoadSlot) -> Cpu {
        Cpu { delayed_load: spec_array_update(self.delayed_load, i, slot), ..self }
    }

    /// The processor with a load into register `reg` under way: it arrives one
    /// instruction later and keeps the register's bits under `mask`.
    pub open spec fn load_delayed(self, reg: u32, value: u32, mask: u32) -> Cpu {
        let i = self.current_delayed_load as int;
        self.with_slot(
            i,
            DelayedLoadSlot { active: true, index: reg, value, mask, ..self.delayed_load[i] },
        )
    }

    /// The processor with a jump under way: it is taken one instruction later,
    /// after the delay slot.
    pub open spec fn branched(self, target: u32) -> Cpu {
        let i = self.current_delayed_load as int;
        (Cpu { next_is_delay_slot: true, ..self }).with_slot(
            i,
            DelayedLoadSlot { pc_active: true, pc_value: target, ..self.delayed_load[i] },
        )
    }

    /// The processor without the load into register `reg` that the previous
    /// instruction has started.
    pub open spec fn load_cancelled(self, reg: u32) -> Cpu {
        let i = self.other_slot();
        if self.delayed_load[i].index == reg {
            self.with_slot(i, DelayedLoadSlot { active: false, ..self.delayed_load[i] })
        } else {
            self
        }
    }

    /// The processor with an instruction's result in register `reg`, which a
    /// load that is under way does not overwrite.
    pub open spec fn assigned(self, reg: int, value: u32) -> Cpu {
        self.load_cancelled(reg as u32).with_reg(reg, value)
    }

    /// The processor with the load in the current slot arrived.
    pub open spec fn load_flushed(self) -> Cpu {
        let i = self.current_delayed_load as int;
        let slot = self.delayed_load[i];
        if slot.active {
            self.with_reg(
                slot.index as int,
                (self.reg(slot.index as int) & slot.mask) | slot.value,
            ).with_slot(i, DelayedLoadSlot { active: false, ..slot })
        } else {
            self
        }
    }

    /// The processor with the jump in the current slot taken.
    pub open spec fn jump_taken(self) -> Cpu {
        let i = self.current_delayed_load as int;
        let slot = self.delayed_load[i];
        if slot.pc_active {
            self.with_pc(slot.pc_value).with_slot(
                i,
                DelayedLoadSlot { pc_active: false, ..slot },
            )
        } else {
            self
        }
    }

    /// The processor at the start of an exception: the cause and the address to
    /// return to are saved, the interrupt enable and mode bits are pushed, and
    /// execution goes on at the handler.
    pub open spec fn vectored(self, cause: u32, in_delay_slot: bool) -> Cpu {
        let status = self.status();
        self.with_cp0(
            CP0_CAUSE as int,
            if in_delay_slot {
                cause | 0x8000_0000
            } else {
                cause
            },
        ).with_cp0(
            CP0_EPC as int,
            if in_delay_slot {
                self.regs.pc.wrapping_sub(4)
            } else {
                self.regs.pc
            },
        ).with_cp0(CP0_STATUS as int, (status & !0x3Fu32) | ((status & 0x0F) << 2u32)).with_pc(
            if status & 0x0040_0000 != 0 {
                0xBFC0_0180
            } else {
                0x8000_0080
            },
        )
    }

    /// The processor after the current instruction has caused an exception.
    pub open spec fn trapped(self, exc: Exception) -> Cpu {
        let c = self.with_pc(self.regs.pc.wrapping_sub(4)).vectored(
            exc.code() << 2u32,
            self.in_delay_slot,
        );
        if self.in_delay_slot {
            let i = c.current_delayed_load as int;
            c.with_slot(i, DelayedLoadSlot { pc_active: false, ..c.delayed_load[i] })
        } else {
            c
        }
    }

    /// The processor after the test for software interrupts.
    pub open spec fn sw_ints_tested(self) -> Cpu {
        let cause = self.regs.cp0[CP0_CAUSE as int];
        if cause & self.status() & 0x0300 != 0 && self.status() & 1 != 0 {
            (Cpu { in_delay_slot: false, ..self }).vectored(cause, self.in_delay_slot)
        } else {
            self
        }
    }

    /// The processor after reset: it starts in the BIOS.
    pub open spec fn is_reset(self) -> bool {
        &&& exists|r: Registers|
            r.is_cleared() && self.regs == (Registers { pc: 0xBFC0_0000, ..r }).with_cp0(
                CP0_STATUS as int,
                0x1090_0000,
            ).with_cp0(CP0_PRID as int, 2)
        &&& self.is_idle()
    }

    /// Nothing is under way, and the instruction cache is empty.
    pub open spec fn is_idle(self) -> bool {
        &&& self.delayed_load[0] == DelayedLoadSlot::empty()
        &&& self.delayed_load[1] == DelayedLoadSlot::empty()
        &&& self.current_delayed_load == 0
        &&& !self.in_delay_slot
        &&& !self.next_is_delay_slot
        &&& forall|i: int| 0 <= i < 1024 ==> self.icache_addr[i] == 0xFFFF_FFFF
        &&& forall|i: int| 0 <= i < 1024 ==> self.icache_code[i] == 0
    }

    /// Whether the game on the disc is to be started now: the BIOS has just
    /// jumped to its shell.
    pub open spec fn boots(self, bus: BusState) -> bool {
        self.fast_boot && self.regs.pc == 0x8003_0000 && bus.cdrom.has_disc
    }

    /// The processor at the start of a game. Coprocessor 2 is made usable, and
    /// the rest of the status stays as the BIOS left it.
    pub open spec fn game_started(self, image: BootImage) -> Cpu {
        let c = self.with_pc(image.entry);
        let d = if image.gp != 0 {
            c.with_reg(28, image.gp)
        } else {
            c
        };
        let e = d.with_reg(29, image.sp).with_reg(30, image.sp).with_cp0(
            CP0_STATUS as int,
            self.status() | 0x4000_0000,
        );
        Cpu {
            in_delay_slot: false,
            next_is_delay_slot: false,
            delayed_load: [DelayedLoadSlot::empty(), DelayedLoadSlot::empty()],
            ..e
        }
    }

    /// The bus after a call of a BIOS function, which is recognised by where the
    /// program counter is: what programs print goes to the console.
    pub open spec fn bios_called(self, bus: BusState) -> BusState {
        let call = self.reg(9) & 0xFF;
        let (writes, puts_char, puts_string) = if self.regs.pc == 0xA0 {
            (call == 0x03, call == 0x09 || call == 0x3C, call == 0x3E)
        } else if self.regs.pc == 0xB0 {
            (call == 0x35, call == 0x3B || call == 0x3D, call == 0x3F)
        } else {
            (false, false, false)
        };
        if writes {
            if self.reg(4) == 1 {
                bus.printed_block(self.reg(5), self.reg(6) as nat)
            } else {
                bus
            }
        } else if puts_char {
            bus.printed(self.reg(4) as u8)
        } else if puts_string {
            bus.printed_string(self.reg(4), 1024)
        } else {
            bus
        }
    }

    /// The processor and the bus after the interception of BIOS calls. The game
    /// on the disc is started at most once.
    pub open spec fn intercepted(self, bus: BusState) -> (Cpu, BusState) {
        if self.boots(bus) {
            let c = Cpu { fast_boot: false, ..self };
            match boot_plan(bus.cdrom) {
                Some(image) => (c.game_started(image), bus.booted(image)),
                None => (c, bus),
            }
        } else {
            (self, self.bios_called(bus))
        }
    }

    /// The processor with the next instruction fetched: the program counter is
    /// past it, and two cycles have gone by.
    pub open spec fn fetched(self, code: u32) -> Cpu {
        Cpu {
            regs: Registers {
                current_instruction: code,
                pc: self.regs.pc.wrapping_add(4),
                cycle: (self.regs.cycle + 2) as u64,
                ..self.regs
            },
            in_delay_slot: self.in_delay_slot || self.next_is_delay_slot,
            next_is_delay_slot: false,
            ..self
        }
    }

    /// The processor after an instruction: the load and the jump that the
    /// previous instruction has started take effect.
    pub open spec fn retired(self) -> Cpu {
        (Cpu {
            current_delayed_load: self.other_slot() as usize,
            ..self
        }).load_flushed().jump_taken()
    }

    /// The processor and the bus after one instruction, before anything that is
    /// only done after a delay slot.
    pub open spec fn advanced(self, bus: BusState) -> (Cpu, BusState) {
        let code = bus.word(self.regs.pc);
        let b = BusState {
            last_cycle: (self.regs.cycle + 2) as u64,
            ..bus.word_read(self.regs.pc)
        };
        let (c, b2) = self.fetched(code).executed(b, code);
        (c.retired(), b2)
    }

    /// The processor and the bus after one instruction. After a delay slot BIOS
    /// calls are intercepted and interrupts are tested.
    pub open spec fn stepped(self, bus: BusState) -> (Cpu, BusState) {
        let (c, b) = self.advanced(bus);
        if c.in_delay_slot {
            let (d, b2) = (Cpu { in_delay_slot: false, ..c }).intercepted(b);
            d.branch_tested(b2)
        } else {
            (c, b)
        }
    }

    /// The processor and the bus after the test for hardware interrupts: the
    /// timers and the scheduled events are brought up to date, and an enabled
    /// interrupt is taken.
    pub open spec fn branch_tested(self, bus: BusState) -> (Cpu, BusState) {
        let b = bus.caught_up(self.regs.cycle);
        if b.istat() & b.imask() != 0 && self.status() & 0x401 == 0x401 {
            (self.vectored(0x400, false), b)
        } else {
            (self, b)
        }
    }
}

/// Whether a character is shown on the console.
pub open spec fn is_printable(ch: u8) -> bool {
    0 < ch < 0x80
}

impl BusState {
    /// The bus with its clock at `cycle`, and everything that is due done.
    pub open spec fn caught_up(self, cycle: u64) -> BusState {
        let b = BusState { last_cycle: cycle, ..self };
        let c = if cycle >= b.timers.next_counter {
            (BusState { timers: b.timers.updated(cycle), ..b }).timers_drained()
        } else {
            b
        };
        if c.scheduler.interrupt_flags != 0 && c.scheduler.lowest_target <= cycle {
            (BusState { scheduler: c.scheduler.checked(cycle), ..c }).events(
                c.scheduler.due_mask(cycle),
                16,
            )
        } else {
            c
        }
    }

    /// The bus with a character printed, if it can be shown.
    pub open spec fn printed(self, ch: u8) -> BusState {
        if is_printable(ch) {
            BusState { console: self.console.push(ch), ..self }
        } else {
            self
        }
    }

    /// The bus with `n` characters from `addr` on printed.
    pub open spec fn printed_block(self, addr: u32, n: nat) -> BusState
        decreases n,
    {
        if n == 0 {
            self
        } else {
            self.byte_read(addr).printed(self.byte(addr)).printed_block(
                addr.wrapping_add(1),
                (n - 1) as nat,
            )
        }
    }

    /// The bus with the characters from `addr` up to a zero printed, at most `n`.
    pub open spec fn printed_string(self, addr: u32, n: nat) -> BusState
        decreases n,
    {
        if n == 0 {
            self
        } else if self.byte(addr) == 0 {
            self.byte_read(addr)
        } else {
            self.byte_read(addr).printed(self.byte(addr)).printed_string(
                addr.wrapping_add(1),
                (n - 1) as nat,
            )
        }
    }
}

} // verus!
