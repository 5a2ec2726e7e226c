//! The instruction set, in numbers: what each instruction does with the fields of
//! its word, the registers and the memory.

use crate::arith::{law_division, trunc_div, trunc_rem};
use crate::bits::{
    bit, lemma_bits_of, lemma_control_of, lemma_fields_of, lemma_halves_of, lemma_immediate_of,
    lemma_signed_of, lemma_unsigned_of, signed16, signed32, signed8, word_of,
};
use crate::bus::state::BusState;
use crate::cpu::Cpu;
use crate::cpu::exceptions::Exception;
use crate::cpu::interpreter::{lemma_signed_product, lemma_unsigned_product};
use crate::cpu::registers::Registers;
use crate::cpu::semantics::{rd_of, rs_of, rt_of, shift_of, signed_imm};
use vstd::prelude::*;

verus! {

/// The operation: the top six bits.
pub open spec fn op_field(code: u32) -> int {
    code as int / 0x400_0000
}

pub open spec fn rs_field(code: u32) -> int {
    code as int / 0x20_0000 % 32
}

pub open spec fn rt_field(code: u32) -> int {
    code as int / 0x1_0000 % 32
}

pub open spec fn rd_field(code: u32) -> int {
    code as int / 0x800 % 32
}

pub open spec fn shift_field(code: u32) -> int {
    code as int / 0x40 % 32
}

/// Which operation of the register group: the low six bits.
pub open spec fn funct_field(code: u32) -> int {
    code as int % 64
}

/// The immediate operand: the low sixteen bits.
pub open spec fn imm_field(code: u32) -> int {
    code as int % 0x1_0000
}

/// The source and target operands.
pub open spec fn rs_value(c: Cpu, code: u32) -> u32 {
    c.regs.gpr[rs_field(code)]
}

pub open spec fn rt_value(c: Cpu, code: u32) -> u32 {
    c.regs.gpr[rt_field(code)]
}

/// Whether nothing is under way.
pub open spec fn quiet(c: Cpu) -> bool {
    &&& c.wf()
    &&& !c.delayed_load[0].active
    &&& !c.delayed_load[1].active
    &&& !c.delayed_load[0].pc_active
    &&& !c.delayed_load[1].pc_active
}

/// Whether `d` differs from `c` in register `i` alone, which has the value `v`;
/// register 0 keeps its value. A load into that register that was under way is
/// dropped, every other one goes on.
pub open spec fn result_in(c: Cpu, d: Cpu, i: int, v: u32) -> bool {
    &&& d == (Cpu { regs: d.regs, delayed_load: d.delayed_load, ..c })
    &&& d.regs == (Registers { gpr: d.regs.gpr, ..c.regs })
    &&& i != 0 ==> d.regs.gpr[i] == v
    &&& forall|j: int| 0 <= j < 32 && (j != i || j == 0) ==> d.regs.gpr[j] == c.regs.gpr[j]
    &&& forall|k: int|
        0 <= k < 2 ==> {
            &&& #[trigger] d.delayed_load[k].index == c.delayed_load[k].index
            &&& d.delayed_load[k].value == c.delayed_load[k].value
            &&& d.delayed_load[k].mask == c.delayed_load[k].mask
            &&& d.delayed_load[k].pc_active == c.delayed_load[k].pc_active
            &&& d.delayed_load[k].pc_value == c.delayed_load[k].pc_value
            &&& d.delayed_load[k].active == (c.delayed_load[k].active && !(k
                != c.current_delayed_load && c.delayed_load[k].index == i))
        }
}

/// Whether `d` is `c` about to jump to `target` after the next instruction.
pub open spec fn jumps_to(c: Cpu, d: Cpu, target: u32) -> bool {
    &&& d.next_is_delay_slot
    &&& d.regs.pc == c.regs.pc
    &&& d.retired().regs.pc == c.regs.pc
    &&& d.retired().retired().regs.pc == target
    &&& d.retired().retired().retired().regs.pc == target
}

/// The address of a branch target: counted in words from the instruction after the
/// branch, which the program counter names while the branch is executed.
pub open spec fn branch_target(c: Cpu, code: u32) -> u32 {
    word_of(c.regs.pc + 4 * signed16(imm_field(code)))
}

/// The fields as the instructions use them.
pub proof fn lemma_decoded(c: Cpu, code: u32)
    ensures
        code >> 26u32 == op_field(code),
        rs_of(code) == rs_field(code),
        rt_of(code) == rt_field(code),
        rd_of(code) == rd_field(code),
        shift_of(code) == shift_field(code),
        code & 0x3F == funct_field(code),
        code & 0xFFFF == imm_field(code),
        signed_imm(code) == word_of(signed16(imm_field(code))),
        signed32(signed_imm(code)) == signed16(imm_field(code)),
        c.regs.pc.wrapping_add(signed_imm(code) << 2u32) == branch_target(c, code),
        (signed_imm(code) << 2u32).wrapping_add(c.regs.pc) == branch_target(c, code),
{
    lemma_fields_of(code);
    lemma_immediate_of(code);
}

/// Conditional branches: each is taken exactly if its condition on the signed
/// values of its registers holds. It then leads, after the delay slot, the signed
/// immediate number of words away from the delay slot; otherwise it does nothing.
pub proof fn law_branches(c: Cpu, bus: BusState, code: u32)
    requires
        quiet(c),
        4 <= op_field(code) <= 7,
    ensures
        ({
            let (d, b) = c.executed(bus, code);
            let (s, t) = (signed32(rs_value(c, code)), signed32(rt_value(c, code)));
            let taken = if op_field(code) == 4 {
                s == t
            } else if op_field(code) == 5 {
                s != t
            } else if op_field(code) == 6 {
                s <= 0
            } else {
                s > 0
            };
            &&& b == bus
            &&& taken ==> jumps_to(c, d, branch_target(c, code))
            &&& d.regs == c.regs
            &&& !taken ==> d == c
        }),
{
    reveal(Cpu::executed);
    lemma_decoded(c, code);
    lemma_signed_of(rs_value(c, code), 0, 0);
}

proof fn lemma_jumps(c: Cpu, d: Cpu, target: u32)
    requires
        quiet(c),
        d == c || exists|v: u32| d == #[trigger] c.with_reg(31, v),
    ensures
        jumps_to(c, d.branched(target), target),
        d.branched(target).regs == d.regs,
        !jumping(d),
{
}

/// Branches on the sign of a register, with or without a link to the instruction
/// after the delay slot's branch.
pub proof fn law_sign_branches(c: Cpu, bus: BusState, code: u32)
    requires
        quiet(c),
        op_field(code) == 1,
    ensures
        ({
            let (d, b) = c.executed(bus, code);
            let negative = signed32(rs_value(c, code)) < 0;
            let taken = (rt_field(code) % 2 == 0) == negative;
            let links = rt_field(code) >= 16;
            &&& b == bus
            &&& taken ==> jumps_to(c, d, branch_target(c, code))
            &&& !taken ==> !jumping(d) && d.next_is_delay_slot == c.next_is_delay_slot
            &&& links ==> d.regs.gpr[31] == c.regs.pc
            &&& !links ==> d.regs == c.regs
            &&& forall|j: int| 0 <= j < 31 ==> d.regs.gpr[j] == c.regs.gpr[j]
            &&& d.regs == (Registers { gpr: d.regs.gpr, ..c.regs })
        }),
{
    lemma_decoded(c, code);
    lemma_fields_of(code);
    lemma_signed_of(rs_value(c, code), 0, 0);
    let target = branch_target(c, code);
    let linked = c.with_reg(31, c.regs.pc);
    lemma_jumps(c, c, target);
    lemma_jumps(c, linked, target);
    assert(c.executed(bus, code) == (c.after_regimm(code), bus)) by {
        reveal(Cpu::executed);
    }
}

/// Whether a jump is under way.
pub open spec fn jumping(d: Cpu) -> bool {
    d.delayed_load[0].pc_active || d.delayed_load[1].pc_active
}

/// A branch with the immediate -1 leads back to itself.
pub proof fn law_branch_to_itself(c: Cpu, code: u32)
    requires
        imm_field(code) == 0xFFFF,
    ensures
        branch_target(c, code) == c.regs.pc.wrapping_sub(4),
{
}

/// Jumps: to a word of the 256 MiB that the delay slot lies in, or to the address
/// in a register. The linking ones leave the address after the delay slot's branch
/// in register 31 or in the register they name.
pub proof fn law_jumps(c: Cpu, bus: BusState, code: u32)
    requires
        quiet(c),
    ensures
        ({
            let (d, b) = c.executed(bus, code);
            let target = (c.regs.pc / 0x1000_0000 * 0x1000_0000 + 4 * (code as int % 0x400_0000));
            let to_register = op_field(code) == 0 && (funct_field(code) == 8 || funct_field(code)
                == 9);
            &&& op_field(code) == 2 || op_field(code) == 3 ==> jumps_to(c, d, target as u32) && b
                == bus
            &&& to_register ==> jumps_to(c, d, rs_value(c, code)) && b == bus
            &&& op_field(code) == 2 || (op_field(code) == 0 && funct_field(code) == 8) ==> d.regs
                == c.regs
            &&& op_field(code) == 3 ==> d.regs.gpr[31] == c.regs.pc && (forall|j: int|
                0 <= j < 31 ==> d.regs.gpr[j] == c.regs.gpr[j])
            &&& op_field(code) == 0 && funct_field(code) == 9 ==> (rd_field(code) != 0
                ==> d.regs.gpr[rd_field(code)] == c.regs.pc) && (forall|j: int|
                0 <= j < 32 && j != rd_field(code) ==> d.regs.gpr[j] == c.regs.gpr[j])
        }),
{
    reveal(Cpu::executed);
    lemma_decoded(c, code);
    lemma_control_of(code, c.regs.pc, 0);
}

/// Whether `d` is `c` at the handler of an exception of the given number, caused
/// by the instruction before the program counter. The address to return to is that
/// of the instruction, or of the branch before it if it stands in a delay slot, which
/// the top bit of the cause then tells. The interrupt enable and mode bits are pushed
/// by two, and no register that programs use is changed.
pub open spec fn traps(c: Cpu, d: Cpu, number: int) -> bool {
    let status = c.regs.cp0[12];
    &&& d.regs.cp0[13] == 4 * number + (if c.in_delay_slot {
        0x8000_0000int
    } else {
        0
    })
    &&& d.regs.cp0[14] == c.regs.pc.wrapping_sub(
        if c.in_delay_slot {
            8
        } else {
            4
        },
    )
    &&& d.regs.cp0[12] == status / 64 * 64 + status % 16 * 4
    &&& d.regs.pc == (if status / 0x40_0000 % 2 == 1 {
        0xBFC0_0180u32
    } else {
        0x8000_0080u32
    })
    &&& d.regs == (Registers { pc: d.regs.pc, cp0: d.regs.cp0, ..c.regs })
    &&& forall|i: int|
        0 <= i < 32 && i != 8 && i != 12 && i != 13 && i != 14 ==> d.regs.cp0[i] == c.regs.cp0[i]
}

proof fn lemma_traps(c: Cpu, exc: Exception)
    requires
        c.wf(),
    ensures
        traps(c, c.trapped(exc), exc.code() as int),
        c.trapped(exc).regs.cp0[8] == c.regs.cp0[8],
        forall|a: u32|
            traps(c, #[trigger] c.misaddressed(a, exc), exc.code() as int) && c.misaddressed(
                a,
                exc,
            ).regs.cp0[8] == a,
{
    lemma_control_of(c.status(), 0, exc.code());
}

/// The numbers of the exceptions that instructions cause.
pub proof fn law_exception_numbers()
    ensures
        Exception::LoadAddressError.code() == 4,
        Exception::StoreAddressError.code() == 5,
        Exception::Syscall.code() == 8,
        Exception::Break.code() == 9,
        Exception::ArithmeticOverflow.code() == 12,
{
}

/// System calls and breakpoints trap.
pub proof fn law_calls_trap(c: Cpu, bus: BusState, code: u32)
    requires
        c.wf(),
        op_field(code) == 0,
    ensures
        funct_field(code) == 12 ==> traps(c, c.executed(bus, code).0, 8),
        funct_field(code) == 13 ==> traps(c, c.executed(bus, code).0, 9),
        c.executed(bus, code).1 == bus,
{
    reveal(Cpu::executed);
    lemma_decoded(c, code);
    lemma_traps(c, Exception::Syscall);
    lemma_traps(c, Exception::Break);
}

proof fn lemma_result(c: Cpu, i: int, v: u32)
    requires
        c.wf(),
        0 <= i < 32,
    ensures
        result_in(c, c.assigned(i, v), i, v),
{
}

/// Sums with an immediate operand. The first kind traps exactly if the signed result
/// does not fit in a word, and then leaves every register; the second gives the
/// result modulo 2^32.
pub proof fn law_immediate_sums(c: Cpu, bus: BusState, code: u32)
    requires
        c.wf(),
        op_field(code) == 8 || op_field(code) == 9,
    ensures
        ({
            let (d, b) = c.executed(bus, code);
            let sum = signed32(rs_value(c, code)) + signed16(imm_field(code));
            &&& b == bus
            &&& if op_field(code) == 9 || -0x8000_0000 <= sum < 0x8000_0000 {
                result_in(c, d, rt_field(code), word_of(sum))
            } else {
                traps(c, d, 12)
            }
        }),
{
    lemma_decoded(c, code);
    let s = rs_value(c, code);
    let k = signed_imm(code);
    let sum = signed32(s) + signed16(imm_field(code));
    lemma_signed_of(s, 0, 0);
    lemma_signed_of(k, 0, 0);
    lemma_unsigned_of(sum as i32);
    lemma_traps(c, Exception::ArithmeticOverflow);
    lemma_result(c, rt_field(code), word_of(sum));
    assert(s.wrapping_add(k) == word_of(sum));
    assert(c.executed(bus, code) == (if op_field(code) == 8 {
        c.after_addi(code)
    } else {
        c.after_addiu(code)
    }, bus)) by {
        reveal(Cpu::executed);
    }
}

/// Sums and differences of registers: those that trap if the signed result does not
/// fit in a word, and those that give it modulo 2^32.
pub proof fn law_sums(c: Cpu, bus: BusState, code: u32)
    requires
        c.wf(),
        op_field(code) == 0,
        0x20 <= funct_field(code) <= 0x23,
    ensures
        ({
            let (d, b) = c.executed(bus, code);
            let (s, t) = (signed32(rs_value(c, code)), signed32(rt_value(c, code)));
            let funct = funct_field(code);
            let sum = if funct < 0x22 {
                s + t
            } else {
                s - t
            };
            let traps_on_overflow = funct == 0x20 || funct == 0x22;
            &&& b == bus
            &&& if !traps_on_overflow || -0x8000_0000 <= sum < 0x8000_0000 {
                result_in(c, d, rd_field(code), word_of(sum))
            } else {
                traps(c, d, 12)
            }
        }),
{
    lemma_decoded(c, code);
    let (s, t) = (rs_value(c, code), rt_value(c, code));
    lemma_signed_of(s, 0, 0);
    lemma_signed_of(t, 0, 0);
    let (plus, minus) = (signed32(s) + signed32(t), signed32(s) - signed32(t));
    lemma_unsigned_of(plus as i32);
    lemma_unsigned_of(minus as i32);
    lemma_traps(c, Exception::ArithmeticOverflow);
    lemma_result(c, rd_field(code), word_of(plus));
    lemma_result(c, rd_field(code), word_of(minus));
    assert(s.wrapping_add(t) == word_of(plus) && s.wrapping_sub(t) == word_of(minus));
    assert(c.executed(bus, code) == (c.after_special(code), bus)) by {
        reveal(Cpu::executed);
    }
}

/// One if a condition holds, zero if not.
pub open spec fn one_if(p: bool) -> u32 {
    if p {
        1
    } else {
        0
    }
}

/// Comparisons give one or zero: signed ones compare signed values, unsigned ones
/// compare words, and an immediate operand is extended by its sign either way.
pub proof fn law_comparisons(c: Cpu, bus: BusState, code: u32)
    requires
        c.wf(),
    ensures
        ({
            let (d, b) = c.executed(bus, code);
            let (s, t) = (rs_value(c, code), rt_value(c, code));
            let k = signed16(imm_field(code));
            let (rt, rd) = (rt_field(code), rd_field(code));
            let register = op_field(code) == 0;
            &&& op_field(code) == 10 ==> result_in(c, d, rt, one_if(signed32(s) < k)) && b == bus
            &&& op_field(code) == 11 ==> result_in(c, d, rt, one_if(s < word_of(k))) && b == bus
            &&& register && funct_field(code) == 0x2A ==> result_in(
                c,
                d,
                rd,
                one_if(signed32(s) < signed32(t)),
            ) && b == bus
            &&& register && funct_field(code) == 0x2B ==> result_in(c, d, rd, one_if(s < t)) && b
                == bus
        }),
{
    lemma_decoded(c, code);
    lemma_signed_of(rs_value(c, code), 0, 0);
    lemma_signed_of(rt_value(c, code), 0, 0);
    lemma_signed_of(signed_imm(code), 0, 0);
    lemma_result(c, rt_field(code), 0);
    lemma_result(c, rt_field(code), 1);
    lemma_result(c, rd_field(code), 0);
    lemma_result(c, rd_field(code), 1);
    assert(op_field(code) == 10 ==> c.executed(bus, code) == (c.after_slti(code), bus)) by {
        reveal(Cpu::executed);
    }
    assert(op_field(code) == 11 ==> c.executed(bus, code) == (c.after_sltiu(code), bus)) by {
        reveal(Cpu::executed);
    }
    assert(op_field(code) == 0 ==> c.executed(bus, code) == (c.after_special(code), bus)) by {
        reveal(Cpu::executed);
    }
}

/// Logic works bit by bit; an immediate operand has zeros in its upper half. Loading
/// the upper half puts the immediate there and zeros below.
pub proof fn law_logic(c: Cpu, bus: BusState, code: u32, i: u32)
    requires
        c.wf(),
        i < 32,
    ensures
        ({
            let (d, b) = c.executed(bus, code);
            let (s, t) = (rs_value(c, code), rt_value(c, code));
            let k = imm_field(code) as u32;
            let to_rt = d.regs.gpr[rt_field(code)];
            let to_rd = d.regs.gpr[rd_field(code)];
            let rt = rt_field(code) != 0;
            let rd = op_field(code) == 0 && rd_field(code) != 0;
            let funct = funct_field(code);
            &&& op_field(code) == 12 && rt ==> (bit(to_rt, i) <==> bit(s, i) && bit(k, i))
            &&& op_field(code) == 13 && rt ==> (bit(to_rt, i) <==> bit(s, i) || bit(k, i))
            &&& op_field(code) == 14 && rt ==> (bit(to_rt, i) <==> bit(s, i) != bit(k, i))
            &&& op_field(code) == 15 && rt ==> to_rt == imm_field(code) * 0x1_0000
            &&& 12 <= op_field(code) <= 15 ==> result_in(c, d, rt_field(code), to_rt) && b == bus
            &&& rd && funct == 0x24 ==> (bit(to_rd, i) <==> bit(s, i) && bit(t, i))
            &&& rd && funct == 0x25 ==> (bit(to_rd, i) <==> bit(s, i) || bit(t, i))
            &&& rd && funct == 0x26 ==> (bit(to_rd, i) <==> bit(s, i) != bit(t, i))
            &&& rd && funct == 0x27 ==> (bit(to_rd, i) <==> !bit(s, i) && !bit(t, i))
            &&& op_field(code) == 0 && 0x24 <= funct <= 0x27 ==> result_in(
                c,
                d,
                rd_field(code),
                to_rd,
            ) && b == bus
        }),
{
    reveal(Cpu::executed);
    lemma_decoded(c, code);
    lemma_immediate_of(code);
    lemma_bits_of(rs_value(c, code), rt_value(c, code), i, 0);
    lemma_bits_of(rs_value(c, code), imm_field(code) as u32, i, 0);
}

/// Shifts move the bits of the target operand by the shift field or by the low five
/// bits of the source operand. Zeros move in, or copies of the sign bit.
pub proof fn law_shifts(c: Cpu, bus: BusState, code: u32, i: u32)
    requires
        c.wf(),
        i < 32,
        op_field(code) == 0,
        rd_field(code) != 0,
    ensures
        ({
            let (d, b) = c.executed(bus, code);
            let t = rt_value(c, code);
            let r = d.regs.gpr[rd_field(code)];
            let funct = funct_field(code);
            let n = if funct < 4 {
                shift_field(code)
            } else {
                rs_value(c, code) as int % 32
            };
            let shift = funct == 0 || funct == 2 || funct == 3 || funct == 4 || funct == 6 || funct
                == 7;
            &&& funct == 0 || funct == 4 ==> (bit(r, i) <==> i >= n && bit(t, (i - n) as u32))
            &&& funct == 2 || funct == 6 ==> (bit(r, i) <==> i + n < 32 && bit(t, (i + n) as u32))
            &&& funct == 3 || funct == 7 ==> (bit(r, i) <==> if i + n < 32 {
                bit(t, (i + n) as u32)
            } else {
                bit(t, 31)
            })
            &&& shift ==> result_in(c, d, rd_field(code), r) && b == bus
        }),
{
    reveal(Cpu::executed);
    lemma_decoded(c, code);
    let s = rs_value(c, code);
    lemma_fields_of(s);
    lemma_bits_of(rt_value(c, code), 0, i, shift_of(code));
    lemma_bits_of(rt_value(c, code), 0, i, s & 0x1F);
}

/// A product is held by the two result registers together, signed or unsigned.
pub proof fn law_products(c: Cpu, bus: BusState, code: u32)
    requires
        c.wf(),
        op_field(code) == 0,
    ensures
        ({
            let (d, b) = c.executed(bus, code);
            let (s, t) = (rs_value(c, code), rt_value(c, code));
            let funct = funct_field(code);
            &&& funct == 0x18 ==> signed32(d.regs.hi) * 0x1_0000_0000 + d.regs.lo == signed32(s)
                * signed32(t)
            &&& funct == 0x19 ==> d.regs.hi * 0x1_0000_0000 + d.regs.lo == s * t
            &&& funct == 0x18 || funct == 0x19 ==> d == (Cpu {
                regs: Registers { hi: d.regs.hi, lo: d.regs.lo, ..c.regs },
                ..c
            }) && b == bus
        }),
{
    reveal(Cpu::executed);
    lemma_decoded(c, code);
    let (s, t) = (rs_value(c, code), rt_value(c, code));
    lemma_signed_of(s, 0, 0);
    lemma_signed_of(t, 0, 0);
    lemma_unsigned_product(s as int, t as int);
    lemma_signed_product(signed32(s), signed32(t));
    let p = (s * t) as u64;
    let q = (s as i32 * t as i32) as i64;
    lemma_halves_of(p, q);
    lemma_signed_of((q >> 32u32) as u32, 0, 0);
}

/// A division leaves the quotient, rounded towards zero, and the remainder. The
/// remainder is smaller than the divisor and has the sign of the dividend. Dividing by
/// zero leaves the dividend as the remainder, and the quotient is -1, or 1 for a
/// negative dividend of a signed division. The one quotient that does not fit wraps.
pub proof fn law_quotients(c: Cpu, bus: BusState, code: u32)
    requires
        c.wf(),
        op_field(code) == 0,
    ensures
        ({
            let (d, b) = c.executed(bus, code);
            let (s, t) = (rs_value(c, code), rt_value(c, code));
            let (n, m) = (signed32(s), signed32(t));
            let (q, r) = (signed32(d.regs.lo), signed32(d.regs.hi));
            let funct = funct_field(code);
            &&& funct == 0x1A && m != 0 && !(n == -0x8000_0000 && m == -1) ==> {
                &&& n == q * m + r
                &&& (-m < r < m || m < r < -m)
                &&& r == 0 || (r < 0 <==> n < 0)
            }
            &&& funct == 0x1A && m == 0 ==> r == n && q == (if n >= 0 {
                -1int
            } else {
                1
            })
            &&& funct == 0x1A && n == -0x8000_0000 && m == -1 ==> q == n && r == 0
            &&& funct == 0x1B && t != 0 ==> s == d.regs.lo * t + d.regs.hi && d.regs.hi < t
            &&& funct == 0x1B && t == 0 ==> d.regs.hi == s && d.regs.lo == 0xFFFF_FFFF
            &&& funct == 0x1A || funct == 0x1B ==> d == (Cpu {
                regs: Registers { hi: d.regs.hi, lo: d.regs.lo, ..c.regs },
                ..c
            }) && b == bus
        }),
{
    reveal(Cpu::executed);
    lemma_decoded(c, code);
    let (s, t) = (rs_value(c, code), rt_value(c, code));
    lemma_signed_of(s, 0, 0);
    lemma_signed_of(t, 0, 0);
    let (n, m) = (signed32(s), signed32(t));
    lemma_unsigned_of(n as i32);
    if t != 0 {
        vstd::arithmetic::div_mod::lemma_fundamental_div_mod(s as int, t as int);
        vstd::arithmetic::mul::lemma_mul_is_commutative(t as int, s as int / t as int);
        if !(n == -0x8000_0000 && m == -1) {
            law_division(n, m);
            lemma_quotient_range(n, m);
            lemma_unsigned_of(trunc_div(n, m) as i32);
            lemma_unsigned_of(trunc_rem(n, m) as i32);
        }
    }
}

proof fn lemma_quotient_range(n: int, m: int)
    requires
        -0x8000_0000 <= n < 0x8000_0000,
        -0x8000_0000 <= m < 0x8000_0000,
        m != 0,
        !(n == -0x8000_0000 && m == -1),
    ensures
        -0x8000_0000 <= trunc_div(n, m) < 0x8000_0000,
        -0x8000_0000 <= trunc_rem(n, m) < 0x8000_0000,
        -m < trunc_rem(n, m) < m || m < trunc_rem(n, m) < -m,
        trunc_rem(n, m) == 0 || (trunc_rem(n, m) < 0 <==> n < 0),
{
    law_division(n, m);
    let (q, r) = (trunc_div(n, m), trunc_rem(n, m));
    let e = if m > 0 {
        m
    } else {
        -m
    };
    vstd::arithmetic::div_mod::lemma_mod_bound(n, e);
    vstd::arithmetic::div_mod::lemma_mod_bound(-n, e);
    assert(-e < r < e);
    assert(-0x8000_0000 <= q < 0x8000_0000) by (nonlinear_arith)
        requires
            q * m + r == n,
            -e < r < e,
            e == m || e == -m,
            e > 0,
            -0x8000_0000 <= n < 0x8000_0000,
            !(n == -0x8000_0000 && m == -1),
    ;
}

/// The result registers are read and written whole.
pub proof fn law_result_registers(c: Cpu, bus: BusState, code: u32)
    requires
        c.wf(),
        op_field(code) == 0,
    ensures
        ({
            let (d, b) = c.executed(bus, code);
            let funct = funct_field(code);
            &&& funct == 0x10 ==> result_in(c, d, rd_field(code), c.regs.hi) && b == bus
            &&& funct == 0x12 ==> result_in(c, d, rd_field(code), c.regs.lo) && b == bus
            &&& funct == 0x11 ==> b == bus && d == (Cpu {
                regs: Registers { hi: rs_value(c, code), ..c.regs },
                ..c
            })
            &&& funct == 0x13 ==> b == bus && d == (Cpu {
                regs: Registers { lo: rs_value(c, code), ..c.regs },
                ..c
            })
        }),
{
    reveal(Cpu::executed);
    lemma_decoded(c, code);
}

/// The address of a load or a store: the base register and the signed immediate.
pub open spec fn address_of(c: Cpu, code: u32) -> u32 {
    word_of(rs_value(c, code) + signed16(imm_field(code)))
}

/// Whether `d` is `c` with `v` on its way to register `i`: it is not there when the
/// instruction is over, but after the next one. No other register is changed.
pub open spec fn brings(c: Cpu, d: Cpu, i: int, v: u32) -> bool {
    &&& d.regs == c.regs
    &&& d.retired().regs == c.regs
    &&& i != 0 ==> d.retired().retired().regs.gpr[i] == v
    &&& forall|j: int|
        0 <= j < 32 && (j != i || j == 0) ==> d.retired().retired().regs.gpr[j] == c.regs.gpr[j]
    &&& d.next_is_delay_slot == c.next_is_delay_slot
    &&& !jumping(d)
}

/// Loads. Bytes and halfwords are extended by their sign or by zeros. An address that
/// is not a multiple of the size traps, and the address is kept for the handler.
pub proof fn law_loads(c: Cpu, bus: BusState, code: u32)
    requires
        quiet(c),
    ensures
        ({
            let (d, b) = c.executed(bus, code);
            let a = address_of(c, code);
            let rt = rt_field(code);
            let op = op_field(code);
            &&& op == 0x20 ==> brings(c, d, rt, word_of(signed8(bus.byte(a) as int))) && b
                == bus.byte_read(a)
            &&& op == 0x24 ==> brings(c, d, rt, bus.byte(a) as u32) && b == bus.byte_read(a)
            &&& op == 0x21 && a % 2 == 0 ==> brings(
                c,
                d,
                rt,
                word_of(signed16(bus.half(a) as int)),
            ) && b == bus.half_read(a)
            &&& op == 0x25 && a % 2 == 0 ==> brings(c, d, rt, bus.half(a) as u32) && b
                == bus.half_read(a)
            &&& op == 0x23 && a % 4 == 0 ==> brings(c, d, rt, bus.word(a)) && b == bus.word_read(
                a,
            )
            &&& op == 0x32 && a % 4 == 0 ==> d.regs.cp2d[rt] == bus.word(a) && (forall|j: int|
                0 <= j < 32 && j != rt ==> d.regs.cp2d[j] == c.regs.cp2d[j]) && d.regs.gpr
                == c.regs.gpr && b == bus.word_read(a)
            &&& ((op == 0x21 || op == 0x25) && a % 2 != 0) || ((op == 0x23 || op == 0x32) && a % 4
                != 0) ==> traps(c, d, 4) && d.regs.cp0[8] == a && b == bus
        }),
{
    let a = address_of(c, code);
    let (rt, op) = (rt_of(code) as u32, op_field(code));
    lemma_decoded(c, code);
    lemma_address(c, code);
    assert((a & 1 == a % 2) && (a & 3 == a % 4)) by {
        lemma_fields_of(a);
    }
    lemma_signed_of(0, bus.half(a), bus.byte(a));
    lemma_traps(c, Exception::LoadAddressError);
    lemma_brings(c, rt, bus.word(a));
    lemma_brings(c, rt, bus.half(a) as u32);
    lemma_brings(c, rt, bus.byte(a) as u32);
    lemma_brings(c, rt, word_of(signed8(bus.byte(a) as int)));
    lemma_brings(c, rt, word_of(signed16(bus.half(a) as int)));
    lemma_load_executed(c, bus, code);
}

/// Which of the loads an instruction is.
proof fn lemma_load_executed(c: Cpu, bus: BusState, code: u32)
    ensures
        op_field(code) == 0x20 ==> c.executed(bus, code) == c.after_lb(bus, code),
        op_field(code) == 0x21 ==> c.executed(bus, code) == c.after_lh(bus, code),
        op_field(code) == 0x23 ==> c.executed(bus, code) == c.after_lw(bus, code),
        op_field(code) == 0x24 ==> c.executed(bus, code) == c.after_lbu(bus, code),
        op_field(code) == 0x25 ==> c.executed(bus, code) == c.after_lhu(bus, code),
        op_field(code) == 0x32 ==> c.executed(bus, code) == c.after_lwc2(bus, code),
{
    lemma_decoded(c, code);
    reveal(Cpu::executed);
}

proof fn lemma_brings(c: Cpu, rt: u32, v: u32)
    requires
        quiet(c),
        rt < 32,
    ensures
        brings(c, c.load_delayed(rt, v, 0), rt as int, v),
{
    lemma_whole_mask(c.regs.gpr[rt as int], v);
}

proof fn lemma_whole_mask(x: u32, v: u32)
    ensures
        (x & 0) | v == v,
{
    assert((x & 0) | v == v) by (bit_vector);
}

proof fn lemma_address(c: Cpu, code: u32)
    ensures
        c.address(code) == address_of(c, code),
{
    lemma_decoded(c, code);
}

/// Stores. The low part of the register goes to the address, and the processor stays
/// as it is. An address that is not a multiple of the size traps. While the cache is
/// isolated, stores of general registers go nowhere.
pub proof fn law_stores(c: Cpu, bus: BusState, code: u32)
    requires
        c.wf(),
    ensures
        ({
            let (d, b) = c.executed(bus, code);
            let a = address_of(c, code);
            let v = rt_value(c, code);
            let op = op_field(code);
            let isolated = c.regs.cp0[12] as int / 0x1_0000 % 2 == 1;
            let general = op == 0x28 || op == 0x29 || op == 0x2B;
            &&& general && isolated ==> d == c && b == bus
            &&& op == 0x28 && !isolated ==> d == c && b == bus.byte_written(a, (v % 0x100) as u8)
            &&& op == 0x29 && !isolated && a % 2 == 0 ==> d == c && b == bus.half_written(
                a,
                (v % 0x1_0000) as u16,
            )
            &&& op == 0x2B && !isolated && a % 4 == 0 ==> d == c && b == bus.word_written(a, v)
            &&& op == 0x3A && a % 4 == 0 ==> d == c && b == bus.word_written(
                a,
                c.regs.cp2d[rt_field(code)],
            )
            &&& (op == 0x29 && !isolated && a % 2 != 0) || (op == 0x2B && !isolated && a % 4 != 0)
                || (op == 0x3A && a % 4 != 0) ==> traps(c, d, 5) && d.regs.cp0[8] == a && b == bus
        }),
{
    reveal(Cpu::executed);
    lemma_decoded(c, code);
    let a = address_of(c, code);
    lemma_address(c, code);
    lemma_fields_of(a);
    lemma_fields_of(rt_value(c, code));
    lemma_control_of(c.status(), 0, 0);
    lemma_traps(c, Exception::StoreAddressError);
}

/// Moves between the general registers and those of the coprocessors. A move from a
/// coprocessor arrives late like a load. Of the cause only the two software
/// interrupt bits are written.
pub proof fn law_coprocessor_moves(c: Cpu, bus: BusState, code: u32)
    requires
        quiet(c),
        op_field(code) == 0x10 || op_field(code) == 0x12,
    ensures
        ({
            let (d, b) = c.executed(bus, code);
            let v = rt_value(c, code);
            let (rs, rt, rd) = (rs_field(code), rt_field(code), rd_field(code));
            let system = op_field(code) == 0x10;
            let cause = c.regs.cp0[13];
            &&& b == bus
            &&& system && (rs == 0 || rs == 2) ==> brings(c, d, rt, c.regs.cp0[rd])
            &&& !system && rs == 0 ==> brings(c, d, rt, c.regs.cp2d[rd])
            &&& !system && rs == 2 ==> brings(c, d, rt, c.regs.cp2c[rd])
            &&& system && (rs == 4 || rs == 6) && rd != 12 && rd != 13 ==> d.regs.cp0[rd] == v && (
            forall|j: int| 0 <= j < 32 && j != rd ==> d.regs.cp0[j] == c.regs.cp0[j])
                && d.regs.gpr == c.regs.gpr && d.regs.pc == c.regs.pc
            &&& system && (rs == 4 || rs == 6) && rd == 12 && v % 2 == 0 ==> d.regs.cp0[12] == v
                && d.regs.pc == c.regs.pc && d.regs.gpr == c.regs.gpr
            &&& system && (rs == 4 || rs == 6) && rd == 13 && c.regs.cp0[12] % 2 == 0
                ==> d.regs.cp0[13] == cause - cause % 0x400 + cause % 0x100 + (v % 0x400 - v
                % 0x100) && d.regs.pc == c.regs.pc && d.regs.gpr == c.regs.gpr
            &&& !system && rs == 4 ==> d.regs.cp2d[rd] == v && (forall|j: int|
                0 <= j < 32 && j != rd ==> d.regs.cp2d[j] == c.regs.cp2d[j]) && d.regs.gpr
                == c.regs.gpr
            &&& !system && rs == 6 ==> d.regs.cp2c[rd] == v && (forall|j: int|
                0 <= j < 32 && j != rd ==> d.regs.cp2c[j] == c.regs.cp2c[j]) && d.regs.gpr
                == c.regs.gpr
        }),
{
    reveal(Cpu::executed);
    lemma_decoded(c, code);
    let v = rt_value(c, code);
    lemma_control_of(c.regs.cp0[13], v, 0);
    lemma_fields_of(v);
    lemma_fields_of(c.status());
    let (rd, rt) = (rd_field(code), rt_field(code));
    lemma_whole_mask(c.regs.gpr[rt], c.regs.cp0[rd]);
    lemma_whole_mask(c.regs.gpr[rt], c.regs.cp2d[rd]);
    lemma_whole_mask(c.regs.gpr[rt], c.regs.cp2c[rd]);
}

/// Words that are no instruction do nothing.
pub proof fn law_no_instruction(c: Cpu, bus: BusState, code: u32)
    requires
        ({
            let op = op_field(code);
            ||| op == 0x11
            ||| op == 0x13
            ||| 0x14 <= op <= 0x1F
            ||| op == 0x27
            ||| op == 0x2C
            ||| op == 0x2D
            ||| op == 0x2F
            ||| op == 0x30
            ||| op == 0x31
            ||| 0x33 <= op <= 0x39
            ||| op >= 0x3B
        }),
    ensures
        c.executed(bus, code) == (c, bus),
{
    reveal(Cpu::executed);
    lemma_decoded(c, code);
}

} // verus!
