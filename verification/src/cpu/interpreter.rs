//! The instruction interpreter.

use crate::arith::{div_toward_zero, rem_toward_zero};
use crate::bus::Bus;
use crate::bus::state::{physical, read_fits};
use crate::cpu::Cpu;
use crate::cpu::exceptions::{exception, Exception};
use crate::cpu::registers::{CP0_BADVADDR, CP0_CAUSE, CP0_STATUS};
use crate::cpu::semantics::{rd_of, rs_of, rt_of, shift_of, signed_imm};
use vstd::prelude::*;

verus! {

/// What the fields of an instruction can hold.
pub proof fn lemma_fields(code: u32)
    ensures
        (code >> 21u32) & 0x1F < 32,
        (code >> 16u32) & 0x1F < 32,
        (code >> 11u32) & 0x1F < 32,
        (code >> 6u32) & 0x1F < 32,
{
    lemma_low_bits(code >> 21u32);
    lemma_low_bits(code >> 16u32);
    lemma_low_bits(code >> 11u32);
    lemma_low_bits(code >> 6u32);
}

proof fn lemma_low_bits(x: u32)
    ensures
        x & 0x1F < 32,
{
    crate::bits::lemma_fields_of(x);
}

/// An aligned access never runs over the end of a memory.
pub proof fn lemma_aligned_fits(addr: u32)
    ensures
        addr & 1 == 0 ==> read_fits(addr, 2),
        addr & 3 == 0 ==> read_fits(addr, 4),
        read_fits(addr & !3u32, 4),
{
    let p = physical(addr);
    let q = physical(addr & !3u32);
    assert((addr & 1 == 0 ==> p % 2 == 0) && (addr & 3 == 0 ==> p % 4 == 0) && q % 4 == 0)
        by (bit_vector)
        requires
            p == addr & 0x1FFF_FFFF,
            q == (addr & !3u32) & 0x1FFF_FFFF,
    ;
}

pub proof fn lemma_signed_product(a: int, b: int)
    by (nonlinear_arith)
    requires
        -0x8000_0000 <= a <= 0x7FFF_FFFF,
        -0x8000_0000 <= b <= 0x7FFF_FFFF,
    ensures
        -0x4000_0000_0000_0000 <= a * b <= 0x4000_0000_0000_0000,
{
}

pub proof fn lemma_unsigned_product(a: int, b: int)
    by (nonlinear_arith)
    requires
        0 <= a <= 0xFFFF_FFFF,
        0 <= b <= 0xFFFF_FFFF,
    ensures
        0 <= a * b <= 0xFFFF_FFFE_0000_0001,
{
}

fn op(code: u32) -> (r: u32)
    ensures
        r == code >> 26u32,
{
    code >> 26u32
}

fn rs(code: u32) -> (r: usize)
    ensures
        r == rs_of(code),
        r < 32,
{
    proof {
        lemma_fields(code);
    }
    ((code >> 21u32) & 0x1F) as usize
}

fn rt(code: u32) -> (r: usize)
    ensures
        r == rt_of(code),
        r < 32,
{
    proof {
        lemma_fields(code);
    }
    ((code >> 16u32) & 0x1F) as usize
}

fn rd(code: u32) -> (r: usize)
    ensures
        r == rd_of(code),
        r < 32,
{
    proof {
        lemma_fields(code);
    }
    ((code >> 11u32) & 0x1F) as usize
}

fn sa(code: u32) -> (r: u32)
    ensures
        r == shift_of(code),
        r < 32,
{
    proof {
        lemma_fields(code);
    }
    (code >> 6u32) & 0x1F
}

fn funct(code: u32) -> (r: u32)
    ensures
        r == code & 0x3F,
{
    code & 0x3F
}

fn imm16(code: u32) -> (r: u16)
    ensures
        r == code as u16,
{
    code as u16
}

fn imm_se(code: u32) -> (r: u32)
    ensures
        r == signed_imm(code),
{
    (code as i16) as i32 as u32
}

fn imm_ze(code: u32) -> (r: u32)
    ensures
        r == code & 0xFFFF,
{
    code & 0xFFFF
}

fn target(code: u32) -> (r: u32)
    ensures
        r == code & 0x03FF_FFFF,
{
    code & 0x03FF_FFFF
}

impl Cpu {
    /// Executes an instruction. The program counter is already past it.
    pub fn execute(&mut self, bus: &mut Bus, code: u32)
        requires
            old(self).wf(),
            old(bus).wf(),
            old(bus)@.timely(),
        ensures
            final(self).wf(),
            final(bus).wf(),
            (*final(self), final(bus)@) == old(self).executed(old(bus)@, code),
            final(bus)@.last_cycle == old(bus)@.last_cycle,
            final(self).regs.cycle == old(self).regs.cycle,
    {
        proof {
            reveal(Cpu::executed);
        }
        match op(code) {
            0x00 => self.execute_special(bus, code),
            0x01 => self.execute_regimm(code),
            0x02 => self.op_j(code),
            0x03 => self.op_jal(code),
            0x04 => self.op_beq(code),
            0x05 => self.op_bne(code),
            0x06 => self.op_blez(code),
            0x07 => self.op_bgtz(code),
            0x08 => self.op_addi(bus, code),
            0x09 => self.op_addiu(code),
            0x0A => self.op_slti(code),
            0x0B => self.op_sltiu(code),
            0x0C => self.op_andi(code),
            0x0D => self.op_ori(code),
            0x0E => self.op_xori(code),
            0x0F => self.op_lui(code),
            0x10 => self.execute_cop0(bus, code),
            0x12 => self.execute_cop2(code),
            0x20 => self.op_lb(bus, code),
            0x21 => self.op_lh(bus, code),
            0x22 => self.op_lwl(bus, code),
            0x23 => self.op_lw(bus, code),
            0x24 => self.op_lbu(bus, code),
            0x25 => self.op_lhu(bus, code),
            0x26 => self.op_lwr(bus, code),
            0x28 => self.op_sb(bus, code),
            0x29 => self.op_sh(bus, code),
            0x2A => self.op_swl(bus, code),
            0x2B => self.op_sw(bus, code),
            0x2E => self.op_swr(bus, code),
            0x32 => self.op_lwc2(bus, code),
            0x3A => self.op_swc2(bus, code),
            _ => {},
        }
    }

    fn execute_special(&mut self, bus: &mut Bus, code: u32)
        requires
            old(self).wf(),
        ensures
            final(self).wf(),
            *final(self) == old(self).after_special(code),
            *final(bus) == *old(bus),
    {
        match funct(code) {
            0x00 => self.op_sll(code),
            0x02 => self.op_srl(code),
            0x03 => self.op_sra(code),
            0x04 => self.op_sllv(code),
            0x06 => self.op_srlv(code),
            0x07 => self.op_srav(code),
            0x08 => self.op_jr(code),
            0x09 => self.op_jalr(code),
            0x0C => self.op_syscall(bus),
            0x0D => self.op_break(bus),
            0x10 => self.op_mfhi(code),
            0x11 => self.op_mthi(code),
            0x12 => self.op_mflo(code),
            0x13 => self.op_mtlo(code),
            0x18 => self.op_mult(code),
            0x19 => self.op_multu(code),
            0x1A => self.op_div(code),
            0x1B => self.op_divu(code),
            0x20 => self.op_add(bus, code),
            0x21 => self.op_addu(code),
            0x22 => self.op_sub(bus, code),
            0x23 => self.op_subu(code),
            0x24 => self.op_and(code),
            0x25 => self.op_or(code),
            0x26 => self.op_xor(code),
            0x27 => self.op_nor(code),
            0x2A => self.op_slt(code),
            0x2B => self.op_sltu(code),
            _ => {},
        }
    }

    fn execute_regimm(&mut self, code: u32)
        requires
            old(self).wf(),
        ensures
            final(self).wf(),
            *final(self) == old(self).after_regimm(code),
    {
        let rt_field: u32 = rt(code) as u32;
        let rs_val: i32 = self.regs.gpr[rs(code)] as i32;
        let pc: u32 = self.regs.pc;
        let target: u32 = (imm_se(code) << 2u32).wrapping_add(pc);
        let taken: bool = if rt_field & 1 == 0 {
            rs_val < 0
        } else {
            rs_val >= 0
        };
        if rt_field & 0x10 != 0 {
            self.regs.set_gpr(31, pc);
        }
        if taken {
            self.branch(target);
        }
    }

    /// Starts a move from a coprocessor.
    fn move_from(&mut self, code: u32, value: u32)
        requires
            old(self).wf(),
        ensures
            final(self).wf(),
            *final(self) == old(self).moved_from(code, value),
    {
        self.cancel_delayed_load(rt(code) as u32);
        self.delayed_load(rt(code) as u32, value);
    }

    fn execute_cop0(&mut self, bus: &mut Bus, code: u32)
        requires
            old(self).wf(),
        ensures
            final(self).wf(),
            *final(self) == old(self).after_cop0(code),
            *final(bus) == *old(bus),
    {
        match rs(code) as u32 {
            0x00 | 0x02 => {
                let val: u32 = self.regs.cp0[rd(code)];
                self.move_from(code, val);
            },
            0x04 | 0x06 => {
                let val: u32 = self.regs.gpr[rt(code)];
                let reg: usize = rd(code);
                match reg {
                    CP0_STATUS => {
                        self.regs.cp0[CP0_STATUS] = val;
                        self.test_sw_ints(bus);
                    },
                    CP0_CAUSE => {
                        let cause: u32 = self.regs.cp0[CP0_CAUSE];
                        self.regs.cp0[CP0_CAUSE] = (cause & !0x0300u32) | (val & 0x0300);
                        self.test_sw_ints(bus);
                    },
                    _ => {
                        self.regs.cp0[reg] = val;
                    },
                }
            },
            0x10 => {
                let status: u32 = self.regs.cp0[CP0_STATUS];
                self.regs.cp0[CP0_STATUS] = (status & 0xFFFF_FFF0) | ((status & 0x3C) >> 2u32);
                self.test_sw_ints(bus);
            },
            _ => {},
        }
    }

    fn execute_cop2(&mut self, code: u32)
        requires
            old(self).wf(),
        ensures
            final(self).wf(),
            *final(self) == old(self).after_cop2(code),
    {
        match rs(code) as u32 {
            0x00 => {
                let val: u32 = self.regs.cp2d[rd(code)];
                self.move_from(code, val);
            },
            0x02 => {
                let val: u32 = self.regs.cp2c[rd(code)];
                self.move_from(code, val);
            },
            0x04 => {
                self.regs.cp2d[rd(code)] = self.regs.gpr[rt(code)];
            },
            0x06 => {
                self.regs.cp2c[rd(code)] = self.regs.gpr[rt(code)];
            },
            _ => {},
        }
    }

    fn op_syscall(&mut self, bus: &mut Bus)
        requires
            old(self).wf(),
        ensures
            final(self).wf(),
            *final(self) == old(self).trapped(Exception::Syscall),
            *final(bus) == *old(bus),
    {
        exception(self, bus, Exception::Syscall);
    }

    fn op_break(&mut self, bus: &mut Bus)
        requires
            old(self).wf(),
        ensures
            final(self).wf(),
            *final(self) == old(self).trapped(Exception::Break),
            *final(bus) == *old(bus),
    {
        exception(self, bus, Exception::Break);
    }

    fn op_j(&mut self, code: u32)
        requires
            old(self).wf(),
        ensures
            final(self).wf(),
            *final(self) == old(self).after_j(code),
    {
        let target_addr: u32 = (target(code) << 2u32) | (self.regs.pc & 0xF000_0000);
        self.branch(target_addr);
    }

    fn op_jal(&mut self, code: u32)
        requires
            old(self).wf(),
        ensures
            final(self).wf(),
            *final(self) == old(self).after_jal(code),
    {
        let pc: u32 = self.regs.pc;
        self.regs.set_gpr(31, pc);
        let target_addr: u32 = (target(code) << 2u32) | (pc & 0xF000_0000);
        self.branch(target_addr);
    }

    fn op_beq(&mut self, code: u32)
        requires
            old(self).wf(),
        ensures
            final(self).wf(),
            *final(self) == old(self).after_beq(code),
    {
        if self.regs.gpr[rs(code)] == self.regs.gpr[rt(code)] {
            let offset: u32 = imm_se(code) << 2u32;
            let target: u32 = self.regs.pc.wrapping_add(offset);
            self.branch(target);
        }
    }

    fn op_bne(&mut self, code: u32)
        requires
            old(self).wf(),
        ensures
            final(self).wf(),
            *final(self) == old(self).after_bne(code),
    {
        if self.regs.gpr[rs(code)] != self.regs.gpr[rt(code)] {
            let offset: u32 = imm_se(code) << 2u32;
            let target: u32 = self.regs.pc.wrapping_add(offset);
            self.branch(target);
        }
    }

    fn op_blez(&mut self, code: u32)
        requires
            old(self).wf(),
        ensures
            final(self).wf(),
            *final(self) == old(self).after_blez(code),
    {
        if (self.regs.gpr[rs(code)] as i32) <= 0 {
            let offset: u32 = imm_se(code) << 2u32;
            let target: u32 = self.regs.pc.wrapping_add(offset);
            self.branch(target);
        }
    }

    fn op_bgtz(&mut self, code: u32)
        requires
            old(self).wf(),
        ensures
            final(self).wf(),
            *final(self) == old(self).after_bgtz(code),
    {
        if (self.regs.gpr[rs(code)] as i32) > 0 {
            let offset: u32 = imm_se(code) << 2u32;
            let target: u32 = self.regs.pc.wrapping_add(offset);
            self.branch(target);
        }
    }

    fn op_addiu(&mut self, code: u32)
        requires
            old(self).wf(),
        ensures
            final(self).wf(),
            *final(self) == old(self).after_addiu(code),
    {
        let result: u32 = self.regs.gpr[rs(code)].wrapping_add(imm_se(code));
        self.cancel_delayed_load(rt(code) as u32);
        self.regs.set_gpr(rt(code), result);
    }

    fn op_slti(&mut self, code: u32)
        requires
            old(self).wf(),
        ensures
            final(self).wf(),
            *final(self) == old(self).after_slti(code),
    {
        let result: u32 = ((self.regs.gpr[rs(code)] as i32) < (imm_se(code) as i32)) as u32;
        self.cancel_delayed_load(rt(code) as u32);
        self.regs.set_gpr(rt(code), result);
    }

    fn op_sltiu(&mut self, code: u32)
        requires
            old(self).wf(),
        ensures
            final(self).wf(),
            *final(self) == old(self).after_sltiu(code),
    {
        let result: u32 = (self.regs.gpr[rs(code)] < imm_se(code)) as u32;
        self.cancel_delayed_load(rt(code) as u32);
        self.regs.set_gpr(rt(code), result);
    }

    fn op_andi(&mut self, code: u32)
        requires
            old(self).wf(),
        ensures
            final(self).wf(),
            *final(self) == old(self).after_andi(code),
    {
        let result: u32 = self.regs.gpr[rs(code)] & imm_ze(code);
        self.cancel_delayed_load(rt(code) as u32);
        self.regs.set_gpr(rt(code), result);
    }

    fn op_ori(&mut self, code: u32)
        requires
            old(self).wf(),
        ensures
            final(self).wf(),
            *final(self) == old(self).after_ori(code),
    {
        let result: u32 = self.regs.gpr[rs(code)] | imm_ze(code);
        self.cancel_delayed_load(rt(code) as u32);
        self.regs.set_gpr(rt(code), result);
    }

    fn op_xori(&mut self, code: u32)
        requires
            old(self).wf(),
        ensures
            final(self).wf(),
            *final(self) == old(self).after_xori(code),
    {
        let result: u32 = self.regs.gpr[rs(code)] ^ imm_ze(code);
        self.cancel_delayed_load(rt(code) as u32);
        self.regs.set_gpr(rt(code), result);
    }

    fn op_lui(&mut self, code: u32)
        requires
            old(self).wf(),
        ensures
            final(self).wf(),
            *final(self) == old(self).after_lui(code),
    {
        let result: u32 = (imm16(code) as u32) << 16u32;
        self.cancel_delayed_load(rt(code) as u32);
        self.regs.set_gpr(rt(code), result);
    }

    fn op_addu(&mut self, code: u32)
        requires
            old(self).wf(),
        ensures
            final(self).wf(),
            *final(self) == old(self).after_addu(code),
    {
        let result: u32 = self.regs.gpr[rs(code)].wrapping_add(self.regs.gpr[rt(code)]);
        self.cancel_delayed_load(rd(code) as u32);
        self.regs.set_gpr(rd(code), result);
    }

    fn op_subu(&mut self, code: u32)
        requires
            old(self).wf(),
        ensures
            final(self).wf(),
            *final(self) == old(self).after_subu(code),
    {
        let result: u32 = self.regs.gpr[rs(code)].wrapping_sub(self.regs.gpr[rt(code)]);
        self.cancel_delayed_load(rd(code) as u32);
        self.regs.set_gpr(rd(code), result);
    }

    fn op_and(&mut self, code: u32)
        requires
            old(self).wf(),
        ensures
            final(self).wf(),
            *final(self) == old(self).after_and(code),
    {
        let result: u32 = self.regs.gpr[rs(code)] & self.regs.gpr[rt(code)];
        self.cancel_delayed_load(rd(code) as u32);
        self.regs.set_gpr(rd(code), result);
    }

    fn op_or(&mut self, code: u32)
        requires
            old(self).wf(),
        ensures
            final(self).wf(),
            *final(self) == old(self).after_or(code),
    {
        let result: u32 = self.regs.gpr[rs(code)] | self.regs.gpr[rt(code)];
        self.cancel_delayed_load(rd(code) as u32);
        self.regs.set_gpr(rd(code), result);
    }

    fn op_xor(&mut self, code: u32)
        requires
            old(self).wf(),
        ensures
            final(self).wf(),
            *final(self) == old(self).after_xor(code),
    {
        let result: u32 = self.regs.gpr[rs(code)] ^ self.regs.gpr[rt(code)];
        self.cancel_delayed_load(rd(code) as u32);
        self.regs.set_gpr(rd(code), result);
    }

    fn op_nor(&mut self, code: u32)
        requires
            old(self).wf(),
        ensures
            final(self).wf(),
            *final(self) == old(self).after_nor(code),
    {
        let result: u32 = !(self.regs.gpr[rs(code)] | self.regs.gpr[rt(code)]);
        self.cancel_delayed_load(rd(code) as u32);
        self.regs.set_gpr(rd(code), result);
    }

    fn op_slt(&mut self, code: u32)
        requires
            old(self).wf(),
        ensures
            final(self).wf(),
            *final(self) == old(self).after_slt(code),
    {
        let result: u32 = ((self.regs.gpr[rs(code)] as i32) < (self.regs.gpr[rt(code)] as i32)) as u32;
        self.cancel_delayed_load(rd(code) as u32);
        self.regs.set_gpr(rd(code), result);
    }

    fn op_sltu(&mut self, code: u32)
        requires
            old(self).wf(),
        ensures
            final(self).wf(),
            *final(self) == old(self).after_sltu(code),
    {
        let result: u32 = (self.regs.gpr[rs(code)] < self.regs.gpr[rt(code)]) as u32;
        self.cancel_delayed_load(rd(code) as u32);
        self.regs.set_gpr(rd(code), result);
    }

    fn op_sll(&mut self, code: u32)
        requires
            old(self).wf(),
        ensures
            final(self).wf(),
            *final(self) == old(self).after_sll(code),
    {
        let result: u32 = self.regs.gpr[rt(code)] << sa(code);
        self.cancel_delayed_load(rd(code) as u32);
        self.regs.set_gpr(rd(code), result);
    }

    fn op_srl(&mut self, code: u32)
        requires
            old(self).wf(),
        ensures
            final(self).wf(),
            *final(self) == old(self).after_srl(code),
    {
        let result: u32 = self.regs.gpr[rt(code)] >> sa(code);
        self.cancel_delayed_load(rd(code) as u32);
        self.regs.set_gpr(rd(code), result);
    }

    fn op_sra(&mut self, code: u32)
        requires
            old(self).wf(),
        ensures
            final(self).wf(),
            *final(self) == old(self).after_sra(code),
    {
        let result: u32 = ((self.regs.gpr[rt(code)] as i32) >> sa(code)) as u32;
        self.cancel_delayed_load(rd(code) as u32);
        self.regs.set_gpr(rd(code), result);
    }

    fn op_sllv(&mut self, code: u32)
        requires
            old(self).wf(),
        ensures
            final(self).wf(),
            *final(self) == old(self).after_sllv(code),
    {
        proof {
            lemma_low_bits(self.reg(rs_of(code)));
        }
        let result: u32 = self.regs.gpr[rt(code)] << (self.regs.gpr[rs(code)] & 0x1F);
        self.cancel_delayed_load(rd(code) as u32);
        self.regs.set_gpr(rd(code), result);
    }

    fn op_srlv(&mut self, code: u32)
        requires
            old(self).wf(),
        ensures
            final(self).wf(),
            *final(self) == old(self).after_srlv(code),
    {
        proof {
            lemma_low_bits(self.reg(rs_of(code)));
        }
        let result: u32 = self.regs.gpr[rt(code)] >> (self.regs.gpr[rs(code)] & 0x1F);
        self.cancel_delayed_load(rd(code) as u32);
        self.regs.set_gpr(rd(code), result);
    }

    fn op_srav(&mut self, code: u32)
        requires
            old(self).wf(),
        ensures
            final(self).wf(),
            *final(self) == old(self).after_srav(code),
    {
        proof {
            lemma_low_bits(self.reg(rs_of(code)));
        }
        let result: u32 = ((self.regs.gpr[rt(code)] as i32) >> (self.regs.gpr[rs(code)] & 0x1F)) as u32;
        self.cancel_delayed_load(rd(code) as u32);
        self.regs.set_gpr(rd(code), result);
    }

    fn op_mult(&mut self, code: u32)
        requires
            old(self).wf(),
        ensures
            final(self).wf(),
            *final(self) == old(self).after_mult(code),
    {
        let a: i64 = self.regs.gpr[rs(code)] as i32 as i64;
        let b: i64 = self.regs.gpr[rt(code)] as i32 as i64;
        proof {
            lemma_signed_product(a as int, b as int);
        }
        let result: i64 = a * b;
        self.regs.lo = result as u32;
        self.regs.hi = (result >> 32u32) as u32;
    }

    fn op_multu(&mut self, code: u32)
        requires
            old(self).wf(),
        ensures
            final(self).wf(),
            *final(self) == old(self).after_multu(code),
    {
        let a: u64 = self.regs.gpr[rs(code)] as u64;
        let b: u64 = self.regs.gpr[rt(code)] as u64;
        proof {
            lemma_unsigned_product(a as int, b as int);
        }
        let result: u64 = a * b;
        self.regs.lo = result as u32;
        self.regs.hi = (result >> 32u32) as u32;
    }

    fn op_div(&mut self, code: u32)
        requires
            old(self).wf(),
        ensures
            final(self).wf(),
            *final(self) == old(self).after_div(code),
    {
        let n: i32 = self.regs.gpr[rs(code)] as i32;
        let d: i32 = self.regs.gpr[rt(code)] as i32;
        if d == 0 {
            self.regs.lo = if n >= 0 {
                0xFFFF_FFFF
            } else {
                1
            };
            self.regs.hi = n as u32;
        } else if n == i32::MIN && d == -1 {
            self.regs.lo = 0x8000_0000;
            self.regs.hi = 0;
        } else {
            self.regs.lo = div_toward_zero(n, d) as u32;
            self.regs.hi = rem_toward_zero(n, d) as u32;
        }
    }

    fn op_divu(&mut self, code: u32)
        requires
            old(self).wf(),
        ensures
            final(self).wf(),
            *final(self) == old(self).after_divu(code),
    {
        let n: u32 = self.regs.gpr[rs(code)];
        let d: u32 = self.regs.gpr[rt(code)];
        if d == 0 {
            self.regs.lo = 0xFFFF_FFFF;
            self.regs.hi = n;
        } else {
            self.regs.lo = n / d;
            self.regs.hi = n % d;
        }
    }

    fn op_mfhi(&mut self, code: u32)
        requires
            old(self).wf(),
        ensures
            final(self).wf(),
            *final(self) == old(self).after_mfhi(code),
    {
        let result: u32 = self.regs.hi;
        self.cancel_delayed_load(rd(code) as u32);
        self.regs.set_gpr(rd(code), result);
    }

    fn op_mthi(&mut self, code: u32)
        requires
            old(self).wf(),
        ensures
            final(self).wf(),
            *final(self) == old(self).after_mthi(code),
    {
        self.regs.hi = self.regs.gpr[rs(code)];
    }

    fn op_mflo(&mut self, code: u32)
        requires
            old(self).wf(),
        ensures
            final(self).wf(),
            *final(self) == old(self).after_mflo(code),
    {
        let result: u32 = self.regs.lo;
        self.cancel_delayed_load(rd(code) as u32);
        self.regs.set_gpr(rd(code), result);
    }

    fn op_mtlo(&mut self, code: u32)
        requires
            old(self).wf(),
        ensures
            final(self).wf(),
            *final(self) == old(self).after_mtlo(code),
    {
        self.regs.lo = self.regs.gpr[rs(code)];
    }

    fn op_jr(&mut self, code: u32)
        requires
            old(self).wf(),
        ensures
            final(self).wf(),
            *final(self) == old(self).after_jr(code),
    {
        let target: u32 = self.regs.gpr[rs(code)];
        self.branch(target);
    }

    fn op_jalr(&mut self, code: u32)
        requires
            old(self).wf(),
        ensures
            final(self).wf(),
            *final(self) == old(self).after_jalr(code),
    {
        let target: u32 = self.regs.gpr[rs(code)];
        let pc: u32 = self.regs.pc;
        self.cancel_delayed_load(rd(code) as u32);
        self.regs.set_gpr(rd(code), pc);
        self.branch(target);
    }

    fn op_addi(&mut self, bus: &mut Bus, code: u32)
        requires
            old(self).wf(),
        ensures
            final(self).wf(),
            *final(self) == old(self).after_addi(code),
            *final(bus) == *old(bus),
    {
        let s: i32 = self.regs.gpr[rs(code)] as i32;
        let t: i32 = imm_se(code) as i32;
        match s.checked_add(t) {
            Some(result) => {
                self.cancel_delayed_load(rt(code) as u32);
                self.regs.set_gpr(rt(code), result as u32);
            },
            None => exception(self, bus, Exception::ArithmeticOverflow),
        }
    }

    fn op_add(&mut self, bus: &mut Bus, code: u32)
        requires
            old(self).wf(),
        ensures
            final(self).wf(),
            *final(self) == old(self).after_add(code),
            *final(bus) == *old(bus),
    {
        let s: i32 = self.regs.gpr[rs(code)] as i32;
        let t: i32 = self.regs.gpr[rt(code)] as i32;
        match s.checked_add(t) {
            Some(result) => {
                self.cancel_delayed_load(rd(code) as u32);
                self.regs.set_gpr(rd(code), result as u32);
            },
            None => exception(self, bus, Exception::ArithmeticOverflow),
        }
    }

    fn op_sub(&mut self, bus: &mut Bus, code: u32)
        requires
            old(self).wf(),
        ensures
            final(self).wf(),
            *final(self) == old(self).after_sub(code),
            *final(bus) == *old(bus),
    {
        let s: i32 = self.regs.gpr[rs(code)] as i32;
        let t: i32 = self.regs.gpr[rt(code)] as i32;
        match s.checked_sub(t) {
            Some(result) => {
                self.cancel_delayed_load(rd(code) as u32);
                self.regs.set_gpr(rd(code), result as u32);
            },
            None => exception(self, bus, Exception::ArithmeticOverflow),
        }
    }

    fn op_lb(&mut self, bus: &mut Bus, code: u32)
        requires
            old(self).wf(),
            old(bus).wf(),
        ensures
            final(self).wf(),
            final(bus).wf(),
            (*final(self), final(bus)@) == old(self).after_lb(old(bus)@, code),
            final(bus)@.last_cycle == old(bus)@.last_cycle,
    {
        let addr: u32 = self.regs.gpr[rs(code)].wrapping_add(imm_se(code));
        let val: u32 = bus.read8(addr) as i8 as i32 as u32;
        self.delayed_load(rt(code) as u32, val);
    }

    fn op_lbu(&mut self, bus: &mut Bus, code: u32)
        requires
            old(self).wf(),
            old(bus).wf(),
        ensures
            final(self).wf(),
            final(bus).wf(),
            (*final(self), final(bus)@) == old(self).after_lbu(old(bus)@, code),
            final(bus)@.last_cycle == old(bus)@.last_cycle,
    {
        let addr: u32 = self.regs.gpr[rs(code)].wrapping_add(imm_se(code));
        let val: u32 = bus.read8(addr) as u32;
        self.delayed_load(rt(code) as u32, val);
    }

    fn op_lh(&mut self, bus: &mut Bus, code: u32)
        requires
            old(self).wf(),
            old(bus).wf(),
        ensures
            final(self).wf(),
            final(bus).wf(),
            (*final(self), final(bus)@) == old(self).after_lh(old(bus)@, code),
            final(bus)@.last_cycle == old(bus)@.last_cycle,
    {
        let addr: u32 = self.regs.gpr[rs(code)].wrapping_add(imm_se(code));
        if addr & 1 != 0 {
            self.regs.cp0[CP0_BADVADDR] = addr;
            exception(self, bus, Exception::LoadAddressError);
            return;
        }
        proof {
            lemma_aligned_fits(addr);
        }
        let val: u32 = bus.read16(addr) as i16 as i32 as u32;
        self.delayed_load(rt(code) as u32, val);
    }

    fn op_lhu(&mut self, bus: &mut Bus, code: u32)
        requires
            old(self).wf(),
            old(bus).wf(),
        ensures
            final(self).wf(),
            final(bus).wf(),
            (*final(self), final(bus)@) == old(self).after_lhu(old(bus)@, code),
            final(bus)@.last_cycle == old(bus)@.last_cycle,
    {
        let addr: u32 = self.regs.gpr[rs(code)].wrapping_add(imm_se(code));
        if addr & 1 != 0 {
            self.regs.cp0[CP0_BADVADDR] = addr;
            exception(self, bus, Exception::LoadAddressError);
            return;
        }
        proof {
            lemma_aligned_fits(addr);
        }
        let val: u32 = bus.read16(addr) as u32;
        self.delayed_load(rt(code) as u32, val);
    }

    fn op_lw(&mut self, bus: &mut Bus, code: u32)
        requires
            old(self).wf(),
            old(bus).wf(),
        ensures
            final(self).wf(),
            final(bus).wf(),
            (*final(self), final(bus)@) == old(self).after_lw(old(bus)@, code),
            final(bus)@.last_cycle == old(bus)@.last_cycle,
    {
        let addr: u32 = self.regs.gpr[rs(code)].wrapping_add(imm_se(code));
        if addr & 3 != 0 {
            self.regs.cp0[CP0_BADVADDR] = addr;
            exception(self, bus, Exception::LoadAddressError);
            return;
        }
        proof {
            lemma_aligned_fits(addr);
        }
        let val: u32 = bus.read32(addr);
        self.delayed_load(rt(code) as u32, val);
    }

    fn op_lwc2(&mut self, bus: &mut Bus, code: u32)
        requires
            old(self).wf(),
            old(bus).wf(),
        ensures
            final(self).wf(),
            final(bus).wf(),
            (*final(self), final(bus)@) == old(self).after_lwc2(old(bus)@, code),
            final(bus)@.last_cycle == old(bus)@.last_cycle,
    {
        let addr: u32 = self.regs.gpr[rs(code)].wrapping_add(imm_se(code));
        if addr & 3 != 0 {
            self.regs.cp0[CP0_BADVADDR] = addr;
            exception(self, bus, Exception::LoadAddressError);
            return;
        }
        proof {
            lemma_aligned_fits(addr);
        }
        let val: u32 = bus.read32(addr);
        self.regs.cp2d[rt(code)] = val;
    }

    fn op_lwl(&mut self, bus: &mut Bus, code: u32)
        requires
            old(self).wf(),
            old(bus).wf(),
        ensures
            final(self).wf(),
            final(bus).wf(),
            (*final(self), final(bus)@) == old(self).after_lwl(old(bus)@, code),
            final(bus)@.last_cycle == old(bus)@.last_cycle,
    {
        let addr: u32 = self.regs.gpr[rs(code)].wrapping_add(imm_se(code));
        proof {
            lemma_aligned_fits(addr);
        }
        let mem: u32 = bus.read32(addr & !3u32);
        let value: u32 = if addr & 3 == 0 {
            mem << 24u32
        } else if addr & 3 == 1 {
            mem << 16u32
        } else if addr & 3 == 2 {
            mem << 8u32
        } else {
            mem
        };
        let mask: u32 = if addr & 3 == 0 {
            0x00FF_FFFF
        } else if addr & 3 == 1 {
            0x0000_FFFF
        } else if addr & 3 == 2 {
            0x0000_00FF
        } else {
            0
        };
        self.delayed_load_masked(rt(code) as u32, value, mask);
    }

    fn op_lwr(&mut self, bus: &mut Bus, code: u32)
        requires
            old(self).wf(),
            old(bus).wf(),
        ensures
            final(self).wf(),
            final(bus).wf(),
            (*final(self), final(bus)@) == old(self).after_lwr(old(bus)@, code),
            final(bus)@.last_cycle == old(bus)@.last_cycle,
    {
        let addr: u32 = self.regs.gpr[rs(code)].wrapping_add(imm_se(code));
        proof {
            lemma_aligned_fits(addr);
        }
        let mem: u32 = bus.read32(addr & !3u32);
        let value: u32 = if addr & 3 == 0 {
            mem
        } else if addr & 3 == 1 {
            mem >> 8u32
        } else if addr & 3 == 2 {
            mem >> 16u32
        } else {
            mem >> 24u32
        };
        let mask: u32 = if addr & 3 == 0 {
            0
        } else if addr & 3 == 1 {
            0xFF00_0000
        } else if addr & 3 == 2 {
            0xFFFF_0000
        } else {
            0xFFFF_FF00
        };
        self.delayed_load_masked(rt(code) as u32, value, mask);
    }

    fn op_sb(&mut self, bus: &mut Bus, code: u32)
        requires
            old(self).wf(),
            old(bus).wf(),
            old(bus)@.timely(),
        ensures
            final(self).wf(),
            final(bus).wf(),
            (*final(self), final(bus)@) == old(self).after_sb(old(bus)@, code),
            final(bus)@.last_cycle == old(bus)@.last_cycle,
    {
        if self.regs.cp0[CP0_STATUS] & 0x10000 != 0 {
            return;
        }
        let addr: u32 = self.regs.gpr[rs(code)].wrapping_add(imm_se(code));
        bus.write8(addr, self.regs.gpr[rt(code)] as u8);
    }

    fn op_sh(&mut self, bus: &mut Bus, code: u32)
        requires
            old(self).wf(),
            old(bus).wf(),
            old(bus)@.timely(),
        ensures
            final(self).wf(),
            final(bus).wf(),
            (*final(self), final(bus)@) == old(self).after_sh(old(bus)@, code),
            final(bus)@.last_cycle == old(bus)@.last_cycle,
    {
        if self.regs.cp0[CP0_STATUS] & 0x10000 != 0 {
            return;
        }
        let addr: u32 = self.regs.gpr[rs(code)].wrapping_add(imm_se(code));
        if addr & 1 != 0 {
            self.regs.cp0[CP0_BADVADDR] = addr;
            exception(self, bus, Exception::StoreAddressError);
            return;
        }
        proof {
            lemma_aligned_fits(addr);
        }
        bus.write16(addr, self.regs.gpr[rt(code)] as u16);
    }

    fn op_sw(&mut self, bus: &mut Bus, code: u32)
        requires
            old(self).wf(),
            old(bus).wf(),
            old(bus)@.timely(),
        ensures
            final(self).wf(),
            final(bus).wf(),
            (*final(self), final(bus)@) == old(self).after_sw(old(bus)@, code),
            final(bus)@.last_cycle == old(bus)@.last_cycle,
    {
        if self.regs.cp0[CP0_STATUS] & 0x10000 != 0 {
            return;
        }
        let addr: u32 = self.regs.gpr[rs(code)].wrapping_add(imm_se(code));
        if addr & 3 != 0 {
            self.regs.cp0[CP0_BADVADDR] = addr;
            exception(self, bus, Exception::StoreAddressError);
            return;
        }
        proof {
            lemma_aligned_fits(addr);
        }
        bus.write32(addr, self.regs.gpr[rt(code)]);
    }

    fn op_swc2(&mut self, bus: &mut Bus, code: u32)
        requires
            old(self).wf(),
            old(bus).wf(),
            old(bus)@.timely(),
        ensures
            final(self).wf(),
            final(bus).wf(),
            (*final(self), final(bus)@) == old(self).after_swc2(old(bus)@, code),
            final(bus)@.last_cycle == old(bus)@.last_cycle,
    {
        let addr: u32 = self.regs.gpr[rs(code)].wrapping_add(imm_se(code));
        if addr & 3 != 0 {
            self.regs.cp0[CP0_BADVADDR] = addr;
            exception(self, bus, Exception::StoreAddressError);
            return;
        }
        proof {
            lemma_aligned_fits(addr);
        }
        bus.write32(addr, self.regs.cp2d[rt(code)]);
    }

    fn op_swl(&mut self, bus: &mut Bus, code: u32)
        requires
            old(self).wf(),
            old(bus).wf(),
            old(bus)@.timely(),
        ensures
            final(self).wf(),
            final(bus).wf(),
            (*final(self), final(bus)@) == old(self).after_swl(old(bus)@, code),
            final(bus)@.last_cycle == old(bus)@.last_cycle,
    {
        if self.regs.cp0[CP0_STATUS] & 0x10000 != 0 {
            return;
        }
        let addr: u32 = self.regs.gpr[rs(code)].wrapping_add(imm_se(code));
        proof {
            lemma_aligned_fits(addr);
        }
        let at: u32 = addr & !3u32;
        let mem: u32 = bus.read32(at);
        let val: u32 = self.regs.gpr[rt(code)];
        let result: u32 = if addr & 3 == 0 {
            (mem & 0xFFFF_FF00) | (val >> 24u32)
        } else if addr & 3 == 1 {
            (mem & 0xFFFF_0000) | (val >> 16u32)
        } else if addr & 3 == 2 {
            (mem & 0xFF00_0000) | (val >> 8u32)
        } else {
            val
        };
        bus.write32(at, result);
    }

    fn op_swr(&mut self, bus: &mut Bus, code: u32)
        requires
            old(self).wf(),
            old(bus).wf(),
            old(bus)@.timely(),
        ensures
            final(self).wf(),
            final(bus).wf(),
            (*final(self), final(bus)@) == old(self).after_swr(old(bus)@, code),
            final(bus)@.last_cycle == old(bus)@.last_cycle,
    {
        if self.regs.cp0[CP0_STATUS] & 0x10000 != 0 {
            return;
        }
        let addr: u32 = self.regs.gpr[rs(code)].wrapping_add(imm_se(code));
        proof {
            lemma_aligned_fits(addr);
        }
        let at: u32 = addr & !3u32;
        let mem: u32 = bus.read32(at);
        let val: u32 = self.regs.gpr[rt(code)];
        let result: u32 = if addr & 3 == 0 {
            val
        } else if addr & 3 == 1 {
            (mem & 0x0000_00FF) | (val << 8u32)
        } else if addr & 3 == 2 {
            (mem & 0x0000_FFFF) | (val << 16u32)
        } else {
            (mem & 0x00FF_FFFF) | (val << 24u32)
        };
        bus.write32(at, result);
    }
}

} // verus!
