//! What each instruction does.

use crate::arith::{trunc_div, trunc_rem};
use crate::bus::state::BusState;
use crate::cpu::Cpu;
use crate::cpu::exceptions::Exception;
use crate::cpu::registers::{CP0_BADVADDR, CP0_CAUSE, CP0_STATUS, Registers};
use vstd::array::spec_array_update;
use vstd::prelude::*;

verus! {

/// The source register of an instruction.
pub open spec fn rs_of(code: u32) -> int {
    ((code >> 21u32) & 0x1F) as int
}

/// The target register.
pub open spec fn rt_of(code: u32) -> int {
    ((code >> 16u32) & 0x1F) as int
}

/// The destination register.
pub open spec fn rd_of(code: u32) -> int {
    ((code >> 11u32) & 0x1F) as int
}

/// The shift amount.
pub open spec fn shift_of(code: u32) -> u32 {
    (code >> 6u32) & 0x1F
}

/// The immediate operand, sign extended.
pub open spec fn signed_imm(code: u32) -> u32 {
    (code as i16) as i32 as u32
}

/// Where a jump at `pc` goes: within its 256 MiB.
pub open spec fn jump_target(code: u32, pc: u32) -> u32 {
    ((code & 0x03FF_FFFF) << 2u32) | (pc & 0xF000_0000)
}

/// What a load of the left part brings: the bytes of `mem` up to `addr`, at the top.
pub open spec fn left_value(addr: u32, mem: u32) -> u32 {
    if addr & 3 == 0 {
        mem << 24u32
    } else if addr & 3 == 1 {
        mem << 16u32
    } else if addr & 3 == 2 {
        mem << 8u32
    } else {
        mem
    }
}

/// The bits of the register that a load of the left part keeps.
pub open spec fn left_kept(addr: u32) -> u32 {
    if addr & 3 == 0 {
        0x00FF_FFFF
    } else if addr & 3 == 1 {
        0x0000_FFFF
    } else if addr & 3 == 2 {
        0x0000_00FF
    } else {
        0
    }
}

/// What a load of the right part brings: the bytes of `mem` from `addr` on, at the
/// bottom.
pub open spec fn right_value(addr: u32, mem: u32) -> u32 {
    if addr & 3 == 0 {
        mem
    } else if addr & 3 == 1 {
        mem >> 8u32
    } else if addr & 3 == 2 {
        mem >> 16u32
    } else {
        mem >> 24u32
    }
}

/// The bits of the register that a load of the right part keeps.
pub open spec fn right_kept(addr: u32) -> u32 {
    if addr & 3 == 0 {
        0
    } else if addr & 3 == 1 {
        0xFF00_0000
    } else if addr & 3 == 2 {
        0xFFFF_0000
    } else {
        0xFFFF_FF00
    }
}

/// The word after a store of the left part: the top of `val` in the bytes up to
/// `addr`.
pub open spec fn left_stored(addr: u32, mem: u32, val: u32) -> u32 {
    if addr & 3 == 0 {
        (mem & 0xFFFF_FF00) | (val >> 24u32)
    } else if addr & 3 == 1 {
        (mem & 0xFFFF_0000) | (val >> 16u32)
    } else if addr & 3 == 2 {
        (mem & 0xFF00_0000) | (val >> 8u32)
    } else {
        val
    }
}

/// The word after a store of the right part: the bottom of `val` in the bytes from
/// `addr` on.
pub open spec fn right_stored(addr: u32, mem: u32, val: u32) -> u32 {
    if addr & 3 == 0 {
        val
    } else if addr & 3 == 1 {
        (mem & 0x0000_00FF) | (val << 8u32)
    } else if addr & 3 == 2 {
        (mem & 0x0000_FFFF) | (val << 16u32)
    } else {
        (mem & 0x00FF_FFFF) | (val << 24u32)
    }
}

impl Cpu {
    /// The address that a load or a store names.
    pub open spec fn address(self, code: u32) -> u32 {
        self.reg(rs_of(code)).wrapping_add(signed_imm(code))
    }

    /// The processor after an access to an address that is not aligned.
    pub open spec fn misaddressed(self, addr: u32, exc: Exception) -> Cpu {
        self.with_cp0(CP0_BADVADDR as int, addr).trapped(exc)
    }

    pub open spec fn with_hi_lo(self, hi: u32, lo: u32) -> Cpu {
        Cpu { regs: Registers { hi, lo, ..self.regs }, ..self }
    }

    pub open spec fn with_cp2d(self, i: int, v: u32) -> Cpu {
        Cpu {
            regs: Registers { cp2d: spec_array_update(self.regs.cp2d, i, v), ..self.regs },
            ..self
        }
    }

    pub open spec fn with_cp2c(self, i: int, v: u32) -> Cpu {
        Cpu {
            regs: Registers { cp2c: spec_array_update(self.regs.cp2c, i, v), ..self.regs },
            ..self
        }
    }

    /// Jump.
    pub open spec fn after_j(self, code: u32) -> Cpu {
        self.branched(jump_target(code, self.regs.pc))
    }

    /// Jump and link.
    pub open spec fn after_jal(self, code: u32) -> Cpu {
        self.with_reg(31, self.regs.pc).branched(
            jump_target(code, self.regs.pc),
        )
    }

    /// Branch if equal.
    pub open spec fn after_beq(self, code: u32) -> Cpu {
        if self.reg(rs_of(code)) == self.reg(rt_of(code)) {
            self.branched(self.regs.pc.wrapping_add(signed_imm(code) << 2u32))
        } else {
            self
        }
    }

    /// Branch if not equal.
    pub open spec fn after_bne(self, code: u32) -> Cpu {
        if self.reg(rs_of(code)) != self.reg(rt_of(code)) {
            self.branched(self.regs.pc.wrapping_add(signed_imm(code) << 2u32))
        } else {
            self
        }
    }

    /// Branch if not positive.
    pub open spec fn after_blez(self, code: u32) -> Cpu {
        if self.reg(rs_of(code)) as i32 <= 0 {
            self.branched(self.regs.pc.wrapping_add(signed_imm(code) << 2u32))
        } else {
            self
        }
    }

    /// Branch if positive.
    pub open spec fn after_bgtz(self, code: u32) -> Cpu {
        if self.reg(rs_of(code)) as i32 > 0 {
            self.branched(self.regs.pc.wrapping_add(signed_imm(code) << 2u32))
        } else {
            self
        }
    }

    /// Add immediate.
    pub open spec fn after_addiu(self, code: u32) -> Cpu {
        self.assigned(rt_of(code), self.reg(rs_of(code)).wrapping_add(signed_imm(code)))
    }

    /// Set if less than immediate, signed.
    pub open spec fn after_slti(self, code: u32) -> Cpu {
        self.assigned(rt_of(code), ((self.reg(rs_of(code)) as i32) < (signed_imm(code) as i32)) as u32)
    }

    /// Set if less than immediate, unsigned.
    pub open spec fn after_sltiu(self, code: u32) -> Cpu {
        self.assigned(rt_of(code), (self.reg(rs_of(code)) < signed_imm(code)) as u32)
    }

    /// And immediate.
    pub open spec fn after_andi(self, code: u32) -> Cpu {
        self.assigned(rt_of(code), self.reg(rs_of(code)) & (code & 0xFFFF))
    }

    /// Or immediate.
    pub open spec fn after_ori(self, code: u32) -> Cpu {
        self.assigned(rt_of(code), self.reg(rs_of(code)) | (code & 0xFFFF))
    }

    /// Exclusive or immediate.
    pub open spec fn after_xori(self, code: u32) -> Cpu {
        self.assigned(rt_of(code), self.reg(rs_of(code)) ^ (code & 0xFFFF))
    }

    /// Load upper immediate.
    pub open spec fn after_lui(self, code: u32) -> Cpu {
        self.assigned(rt_of(code), ((code as u16) as u32) << 16u32)
    }

    /// Add.
    pub open spec fn after_addu(self, code: u32) -> Cpu {
        self.assigned(rd_of(code), self.reg(rs_of(code)).wrapping_add(self.reg(rt_of(code))))
    }

    /// Subtract.
    pub open spec fn after_subu(self, code: u32) -> Cpu {
        self.assigned(rd_of(code), self.reg(rs_of(code)).wrapping_sub(self.reg(rt_of(code))))
    }

    /// And.
    pub open spec fn after_and(self, code: u32) -> Cpu {
        self.assigned(rd_of(code), self.reg(rs_of(code)) & self.reg(rt_of(code)))
    }

    /// Or.
    pub open spec fn after_or(self, code: u32) -> Cpu {
        self.assigned(rd_of(code), self.reg(rs_of(code)) | self.reg(rt_of(code)))
    }

    /// Exclusive or.
    pub open spec fn after_xor(self, code: u32) -> Cpu {
        self.assigned(rd_of(code), self.reg(rs_of(code)) ^ self.reg(rt_of(code)))
    }

    /// Not or.
    pub open spec fn after_nor(self, code: u32) -> Cpu {
        self.assigned(rd_of(code), !(self.reg(rs_of(code)) | self.reg(rt_of(code))))
    }

    /// Set if less than, signed.
    pub open spec fn after_slt(self, code: u32) -> Cpu {
        self.assigned(rd_of(code), ((self.reg(rs_of(code)) as i32) < (self.reg(rt_of(code)) as i32)) as u32)
    }

    /// Set if less than, unsigned.
    pub open spec fn after_sltu(self, code: u32) -> Cpu {
        self.assigned(rd_of(code), (self.reg(rs_of(code)) < self.reg(rt_of(code))) as u32)
    }

    /// Shift left.
    pub open spec fn after_sll(self, code: u32) -> Cpu {
        self.assigned(rd_of(code), self.reg(rt_of(code)) << shift_of(code))
    }

    /// Shift right.
    pub open spec fn after_srl(self, code: u32) -> Cpu {
        self.assigned(rd_of(code), self.reg(rt_of(code)) >> shift_of(code))
    }

    /// Shift right, signed.
    pub open spec fn after_sra(self, code: u32) -> Cpu {
        self.assigned(rd_of(code), (self.reg(rt_of(code)) as i32 >> shift_of(code)) as u32)
    }

    /// Shift left by a register.
    pub open spec fn after_sllv(self, code: u32) -> Cpu {
        self.assigned(rd_of(code), self.reg(rt_of(code)) << (self.reg(rs_of(code)) & 0x1F))
    }

    /// Shift right by a register.
    pub open spec fn after_srlv(self, code: u32) -> Cpu {
        self.assigned(rd_of(code), self.reg(rt_of(code)) >> (self.reg(rs_of(code)) & 0x1F))
    }

    /// Shift right by a register, signed.
    pub open spec fn after_srav(self, code: u32) -> Cpu {
        self.assigned(rd_of(code), (self.reg(rt_of(code)) as i32 >> (self.reg(rs_of(code)) & 0x1F)) as u32)
    }

    /// Multiply, signed.
    pub open spec fn after_mult(self, code: u32) -> Cpu {
        {
            let p = (self.reg(rs_of(code)) as i32 * self.reg(rt_of(code)) as i32) as i64;
            self.with_hi_lo((p >> 32u32) as u32, p as u32)
        }
    }

    /// Multiply, unsigned.
    pub open spec fn after_multu(self, code: u32) -> Cpu {
        {
            let p = (self.reg(rs_of(code)) * self.reg(rt_of(code))) as u64;
            self.with_hi_lo((p >> 32u32) as u32, p as u32)
        }
    }

    /// Divide, signed: the quotient is rounded towards zero. Division by zero and
    /// overflow have fixed results.
    pub open spec fn after_div(self, code: u32) -> Cpu {
        {
            let n = self.reg(rs_of(code)) as i32;
            let d = self.reg(rt_of(code)) as i32;
            if d == 0 {
                self.with_hi_lo(
                    n as u32,
                    if n >= 0 {
                        0xFFFF_FFFF
                    } else {
                        1
                    },
                )
            } else if n == i32::MIN && d == -1 {
                self.with_hi_lo(0, 0x8000_0000)
            } else {
                self.with_hi_lo(
                    trunc_rem(n as int, d as int) as i32 as u32,
                    trunc_div(n as int, d as int) as i32 as u32,
                )
            }
        }
    }

    /// Divide, unsigned. Division by zero has a fixed result.
    pub open spec fn after_divu(self, code: u32) -> Cpu {
        {
            let n = self.reg(rs_of(code));
            let d = self.reg(rt_of(code));
            if d == 0 {
                self.with_hi_lo(n, 0xFFFF_FFFF)
            } else {
                self.with_hi_lo(n % d, n / d)
            }
        }
    }

    /// Move from HI.
    pub open spec fn after_mfhi(self, code: u32) -> Cpu {
        self.assigned(rd_of(code), self.regs.hi)
    }

    /// Move to HI.
    pub open spec fn after_mthi(self, code: u32) -> Cpu {
        Cpu { regs: Registers { hi: self.reg(rs_of(code)), ..self.regs }, ..self }
    }

    /// Move from LO.
    pub open spec fn after_mflo(self, code: u32) -> Cpu {
        self.assigned(rd_of(code), self.regs.lo)
    }

    /// Move to LO.
    pub open spec fn after_mtlo(self, code: u32) -> Cpu {
        Cpu { regs: Registers { lo: self.reg(rs_of(code)), ..self.regs }, ..self }
    }

    /// Jump to a register.
    pub open spec fn after_jr(self, code: u32) -> Cpu {
        self.branched(self.reg(rs_of(code)))
    }

    /// Jump to a register and link.
    pub open spec fn after_jalr(self, code: u32) -> Cpu {
        self.assigned(rd_of(code), self.regs.pc).branched(self.reg(rs_of(code)))
    }

    /// Add immediate; overflow traps.
    pub open spec fn after_addi(self, code: u32) -> Cpu {
        let result = (self.reg(rs_of(code)) as i32) + (signed_imm(code) as i32);
        if i32::MIN <= result <= i32::MAX {
            self.assigned(rt_of(code), result as i32 as u32)
        } else {
            self.trapped(Exception::ArithmeticOverflow)
        }
    }

    /// Add; overflow traps.
    pub open spec fn after_add(self, code: u32) -> Cpu {
        let result = (self.reg(rs_of(code)) as i32) + (self.reg(rt_of(code)) as i32);
        if i32::MIN <= result <= i32::MAX {
            self.assigned(rd_of(code), result as i32 as u32)
        } else {
            self.trapped(Exception::ArithmeticOverflow)
        }
    }

    /// Subtract; overflow traps.
    pub open spec fn after_sub(self, code: u32) -> Cpu {
        let result = (self.reg(rs_of(code)) as i32) - (self.reg(rt_of(code)) as i32);
        if i32::MIN <= result <= i32::MAX {
            self.assigned(rd_of(code), result as i32 as u32)
        } else {
            self.trapped(Exception::ArithmeticOverflow)
        }
    }

    /// Load byte, signed.
    pub open spec fn after_lb(self, bus: BusState, code: u32) -> (Cpu, BusState) {
        let addr = self.address(code);
        (
            self.load_delayed(rt_of(code) as u32, bus.byte(addr) as i8 as i32 as u32, 0),
            bus.byte_read(addr),
        )
    }

    /// Load byte.
    pub open spec fn after_lbu(self, bus: BusState, code: u32) -> (Cpu, BusState) {
        let addr = self.address(code);
        (
            self.load_delayed(rt_of(code) as u32, bus.byte(addr) as u32, 0),
            bus.byte_read(addr),
        )
    }

    /// Load halfword, signed.
    pub open spec fn after_lh(self, bus: BusState, code: u32) -> (Cpu, BusState) {
        let addr = self.address(code);
        if addr & 1 != 0 {
            (self.misaddressed(addr, Exception::LoadAddressError), bus)
        } else {
            (
                self.load_delayed(rt_of(code) as u32, bus.half(addr) as i16 as i32 as u32, 0),
                bus.half_read(addr),
            )
        }
    }

    /// Load halfword.
    pub open spec fn after_lhu(self, bus: BusState, code: u32) -> (Cpu, BusState) {
        let addr = self.address(code);
        if addr & 1 != 0 {
            (self.misaddressed(addr, Exception::LoadAddressError), bus)
        } else {
            (
                self.load_delayed(rt_of(code) as u32, bus.half(addr) as u32, 0),
                bus.half_read(addr),
            )
        }
    }

    /// Load word.
    pub open spec fn after_lw(self, bus: BusState, code: u32) -> (Cpu, BusState) {
        let addr = self.address(code);
        if addr & 3 != 0 {
            (self.misaddressed(addr, Exception::LoadAddressError), bus)
        } else {
            (
                self.load_delayed(rt_of(code) as u32, bus.word(addr), 0),
                bus.word_read(addr),
            )
        }
    }

    /// Load word to coprocessor 2.
    pub open spec fn after_lwc2(self, bus: BusState, code: u32) -> (Cpu, BusState) {
        let addr = self.address(code);
        if addr & 3 != 0 {
            (self.misaddressed(addr, Exception::LoadAddressError), bus)
        } else {
            (
                self.with_cp2d(rt_of(code), bus.word(addr)),
                bus.word_read(addr),
            )
        }
    }

    /// Load the left part of a word: the bytes up to `addr` go to the top of the
    /// register.
    pub open spec fn after_lwl(self, bus: BusState, code: u32) -> (Cpu, BusState) {
        let addr = self.address(code);
        let mem = bus.word(addr & !3u32);
        (
            self.load_delayed(rt_of(code) as u32, left_value(addr, mem), left_kept(addr)),
            bus.word_read(addr & !3u32),
        )
    }

    /// Load the right part of a word: the bytes from `addr` on go to the bottom of
    /// the register.
    pub open spec fn after_lwr(self, bus: BusState, code: u32) -> (Cpu, BusState) {
        let addr = self.address(code);
        let mem = bus.word(addr & !3u32);
        (
            self.load_delayed(rt_of(code) as u32, right_value(addr, mem), right_kept(addr)),
            bus.word_read(addr & !3u32),
        )
    }

    /// Store byte. While the cache is isolated, stores are dropped.
    pub open spec fn after_sb(self, bus: BusState, code: u32) -> (Cpu, BusState) {
        let addr = self.address(code);
        if self.status() & 0x10000 != 0 {
            (self, bus)
        } else {
            (self, bus.byte_written(addr, self.reg(rt_of(code)) as u8))
        }
    }

    /// Store halfword.
    pub open spec fn after_sh(self, bus: BusState, code: u32) -> (Cpu, BusState) {
        let addr = self.address(code);
        if self.status() & 0x10000 != 0 {
            (self, bus)
        } else if addr & 1 != 0 {
            (self.misaddressed(addr, Exception::StoreAddressError), bus)
        } else {
            (self, bus.half_written(addr, self.reg(rt_of(code)) as u16))
        }
    }

    /// Store word.
    pub open spec fn after_sw(self, bus: BusState, code: u32) -> (Cpu, BusState) {
        let addr = self.address(code);
        if self.status() & 0x10000 != 0 {
            (self, bus)
        } else if addr & 3 != 0 {
            (self.misaddressed(addr, Exception::StoreAddressError), bus)
        } else {
            (self, bus.word_written(addr, self.reg(rt_of(code))))
        }
    }

    /// Store word from coprocessor 2.
    pub open spec fn after_swc2(self, bus: BusState, code: u32) -> (Cpu, BusState) {
        let addr = self.address(code);
        if addr & 3 != 0 {
            (self.misaddressed(addr, Exception::StoreAddressError), bus)
        } else {
            (self, bus.word_written(addr, self.regs.cp2d[rt_of(code)]))
        }
    }

    /// Store the left part of a word: the top of the register goes to the bytes up to
    /// `addr`.
    pub open spec fn after_swl(self, bus: BusState, code: u32) -> (Cpu, BusState) {
        let addr = self.address(code);
        let at = addr & !3u32;
        if self.status() & 0x10000 != 0 {
            (self, bus)
        } else {
            (
                self,
                bus.word_read(at).word_written(
                    at,
                    left_stored(addr, bus.word(at), self.reg(rt_of(code))),
                ),
            )
        }
    }

    /// Store the right part of a word: the bottom of the register goes to the bytes
    /// from `addr` on.
    pub open spec fn after_swr(self, bus: BusState, code: u32) -> (Cpu, BusState) {
        let addr = self.address(code);
        let at = addr & !3u32;
        if self.status() & 0x10000 != 0 {
            (self, bus)
        } else {
            (
                self,
                bus.word_read(at).word_written(
                    at,
                    right_stored(addr, bus.word(at), self.reg(rt_of(code))),
                ),
            )
        }
    }

    /// An instruction of the register group.
    pub open spec fn after_special(self, code: u32) -> Cpu {
        match code & 0x3F {
            0x00 => self.after_sll(code),
            0x02 => self.after_srl(code),
            0x03 => self.after_sra(code),
            0x04 => self.after_sllv(code),
            0x06 => self.after_srlv(code),
            0x07 => self.after_srav(code),
            0x08 => self.after_jr(code),
            0x09 => self.after_jalr(code),
            0x0C => self.trapped(Exception::Syscall),
            0x0D => self.trapped(Exception::Break),
            0x10 => self.after_mfhi(code),
            0x11 => self.after_mthi(code),
            0x12 => self.after_mflo(code),
            0x13 => self.after_mtlo(code),
            0x18 => self.after_mult(code),
            0x19 => self.after_multu(code),
            0x1A => self.after_div(code),
            0x1B => self.after_divu(code),
            0x20 => self.after_add(code),
            0x21 => self.after_addu(code),
            0x22 => self.after_sub(code),
            0x23 => self.after_subu(code),
            0x24 => self.after_and(code),
            0x25 => self.after_or(code),
            0x26 => self.after_xor(code),
            0x27 => self.after_nor(code),
            0x2A => self.after_slt(code),
            0x2B => self.after_sltu(code),
            _ => self,
        }
    }

    /// Branch on the sign of a register, with or without a link.
    pub open spec fn after_regimm(self, code: u32) -> Cpu {
        let negative = (self.reg(rs_of(code)) as i32) < 0;
        let target = (signed_imm(code) << 2u32).wrapping_add(self.regs.pc);
        let linked = if (rt_of(code) as u32) & 0x10 != 0 {
            self.with_reg(31, self.regs.pc)
        } else {
            self
        };
        let taken = if (rt_of(code) as u32) & 1 == 0 {
            negative
        } else {
            !negative
        };
        if taken {
            linked.branched(target)
        } else {
            linked
        }
    }

    /// The processor with a load of `value` into the target register under way,
    /// in place of one that the previous instruction has started.
    pub open spec fn moved_from(self, code: u32, value: u32) -> Cpu {
        self.load_cancelled(rt_of(code) as u32).load_delayed(rt_of(code) as u32, value, 0)
    }

    /// Move to coprocessor 0. Of the cause only the software interrupts can be
    /// written; after a write to the cause or the status they are tested.
    pub open spec fn moved_to_cp0(self, reg: int, value: u32) -> Cpu {
        if reg == CP0_STATUS {
            self.with_cp0(CP0_STATUS as int, value).sw_ints_tested()
        } else if reg == CP0_CAUSE {
            self.with_cp0(
                CP0_CAUSE as int,
                (self.regs.cp0[CP0_CAUSE as int] & !0x0300u32) | (value & 0x0300),
            ).sw_ints_tested()
        } else {
            self.with_cp0(reg, value)
        }
    }

    /// Return from exception: the interrupt enable and mode bits are popped.
    pub open spec fn exception_returned(self) -> Cpu {
        let status = self.status();
        self.with_cp0(
            CP0_STATUS as int,
            (status & 0xFFFF_FFF0) | ((status & 0x3C) >> 2u32),
        ).sw_ints_tested()
    }

    /// An instruction of coprocessor 0.
    pub open spec fn after_cop0(self, code: u32) -> Cpu {
        match (code >> 21u32) & 0x1F {
            0x00 | 0x02 => self.moved_from(code, self.regs.cp0[rd_of(code)]),
            0x04 | 0x06 => self.moved_to_cp0(rd_of(code), self.reg(rt_of(code))),
            0x10 => self.exception_returned(),
            _ => self,
        }
    }

    /// An instruction of coprocessor 2: moves only.
    pub open spec fn after_cop2(self, code: u32) -> Cpu {
        match (code >> 21u32) & 0x1F {
            0x00 => self.moved_from(code, self.regs.cp2d[rd_of(code)]),
            0x02 => self.moved_from(code, self.regs.cp2c[rd_of(code)]),
            0x04 => self.with_cp2d(rd_of(code), self.reg(rt_of(code))),
            0x06 => self.with_cp2c(rd_of(code), self.reg(rt_of(code))),
            _ => self,
        }
    }

    /// The processor and the bus after an instruction. Those that do not exist
    /// do nothing.
    #[verifier::opaque]
    pub open spec fn executed(self, bus: BusState, code: u32) -> (Cpu, BusState) {
        match code >> 26u32 {
            0x00 => (self.after_special(code), bus),
            0x01 => (self.after_regimm(code), bus),
            0x02 => (self.after_j(code), bus),
            0x03 => (self.after_jal(code), bus),
            0x04 => (self.after_beq(code), bus),
            0x05 => (self.after_bne(code), bus),
            0x06 => (self.after_blez(code), bus),
            0x07 => (self.after_bgtz(code), bus),
            0x08 => (self.after_addi(code), bus),
            0x09 => (self.after_addiu(code), bus),
            0x0A => (self.after_slti(code), bus),
            0x0B => (self.after_sltiu(code), bus),
            0x0C => (self.after_andi(code), bus),
            0x0D => (self.after_ori(code), bus),
            0x0E => (self.after_xori(code), bus),
            0x0F => (self.after_lui(code), bus),
            0x10 => (self.after_cop0(code), bus),
            0x12 => (self.after_cop2(code), bus),
            0x20 => self.after_lb(bus, code),
            0x21 => self.after_lh(bus, code),
            0x22 => self.after_lwl(bus, code),
            0x23 => self.after_lw(bus, code),
            0x24 => self.after_lbu(bus, code),
            0x25 => self.after_lhu(bus, code),
            0x26 => self.after_lwr(bus, code),
            0x28 => self.after_sb(bus, code),
            0x29 => self.after_sh(bus, code),
            0x2A => self.after_swl(bus, code),
            0x2B => self.after_sw(bus, code),
            0x2E => self.after_swr(bus, code),
            0x32 => self.after_lwc2(bus, code),
            0x3A => self.after_swc2(bus, code),
            _ => (self, bus),
        }
    }
}

} // verus!
