//! Laws of the processor.

use crate::bus::laws::law_memory_read_back;
use crate::bus::state::{in_ram, in_scratchpad, physical, BusState};
use crate::cpu::Cpu;
use crate::cpu::exceptions::Exception;
use crate::cpu::interpreter::{lemma_aligned_fits, lemma_fields, lemma_unsigned_product};
use crate::cpu::registers::{CP0_BADVADDR, CP0_CAUSE, CP0_EPC, CP0_STATUS};
use crate::cpu::semantics::{
    left_kept, left_stored, left_value, rd_of, right_kept, right_stored, right_value, rs_of, rt_of,
};
use crate::word::{le32, lemma_word_read_back, lemma_word_write_frame, put32};
use vstd::prelude::*;

verus! {

/// Whether `d` is valid, has the cycle count of `c`, and register 0 at zero if
/// `c` has.
pub open spec fn keeps(c: Cpu, d: Cpu) -> bool {
    &&& d.wf()
    &&& d.regs.cycle == c.regs.cycle
    &&& c.reg(0) == 0 ==> d.reg(0) == 0
}

/// What instructions are made of keeps these things.
proof fn lemma_parts(c: Cpu)
    requires
        c.wf(),
    ensures
        forall|i: int, v: u32| 0 <= i < 32 ==> keeps(c, #[trigger] c.assigned(i, v)),
        forall|t: u32| keeps(c, #[trigger] c.branched(t)),
        forall|e: Exception| keeps(c, #[trigger] c.trapped(e)),
        forall|h: u32, l: u32| keeps(c, #[trigger] c.with_hi_lo(h, l)),
        forall|i: u32, v: u32, m: u32| i < 32 ==> keeps(c, #[trigger] c.load_delayed(i, v, m)),
        forall|i: int, v: u32| 0 <= i < 32 ==> keeps(c, #[trigger] c.with_cp0(i, v)),
        keeps(c, c.sw_ints_tested()),
        forall|i: u32| keeps(c, #[trigger] c.load_cancelled(i)),
        forall|v: u32| keeps(c, #[trigger] c.with_reg(31, v)),
{
}

proof fn lemma_special(c: Cpu, code: u32)
    requires
        c.wf(),
    ensures
        keeps(c, c.after_special(code)),
{
    lemma_parts(c);
    lemma_fields(code);
    let d = c.assigned(rd_of(code), c.regs.pc);
    lemma_parts(d);
}

proof fn lemma_coprocessor(c: Cpu, code: u32)
    requires
        c.wf(),
    ensures
        keeps(c, c.after_cop0(code)),
        keeps(c, c.after_cop2(code)),
{
    lemma_parts(c);
    lemma_fields(code);
    lemma_parts(c.load_cancelled(rt_of(code) as u32));
    let v = c.reg(rt_of(code));
    let status = c.status();
    let cause = c.regs.cp0[CP0_CAUSE as int];
    lemma_parts(c.with_cp0(CP0_STATUS as int, v));
    lemma_parts(
        c.with_cp0(CP0_STATUS as int, (status & 0xFFFF_FFF0) | ((status & 0x3C) >> 2u32)),
    );
    lemma_parts(c.with_cp0(CP0_CAUSE as int, (cause & !0x0300u32) | (v & 0x0300)));
}

proof fn lemma_memory(c: Cpu, bus: BusState, code: u32)
    requires
        c.wf(),
    ensures
        keeps(c, c.after_lb(bus, code).0),
        keeps(c, c.after_lbu(bus, code).0),
        keeps(c, c.after_lh(bus, code).0),
        keeps(c, c.after_lhu(bus, code).0),
        keeps(c, c.after_lw(bus, code).0),
        keeps(c, c.after_lwl(bus, code).0),
        keeps(c, c.after_lwr(bus, code).0),
        keeps(c, c.after_lwc2(bus, code).0),
        keeps(c, c.after_sb(bus, code).0),
        keeps(c, c.after_sh(bus, code).0),
        keeps(c, c.after_sw(bus, code).0),
        keeps(c, c.after_swl(bus, code).0),
        keeps(c, c.after_swr(bus, code).0),
        keeps(c, c.after_swc2(bus, code).0),
{
    lemma_parts(c);
    lemma_fields(code);
    lemma_parts(c.with_cp0(CP0_BADVADDR as int, c.address(code)));
}

proof fn lemma_immediate(c: Cpu, code: u32)
    requires
        c.wf(),
    ensures
        keeps(c, c.after_j(code)),
        keeps(c, c.after_jal(code)),
        keeps(c, c.after_beq(code)),
        keeps(c, c.after_bne(code)),
        keeps(c, c.after_blez(code)),
        keeps(c, c.after_bgtz(code)),
        keeps(c, c.after_addi(code)),
        keeps(c, c.after_addiu(code)),
        keeps(c, c.after_slti(code)),
        keeps(c, c.after_sltiu(code)),
        keeps(c, c.after_andi(code)),
        keeps(c, c.after_ori(code)),
        keeps(c, c.after_xori(code)),
        keeps(c, c.after_lui(code)),
        keeps(c, c.after_regimm(code)),
{
    lemma_parts(c);
    lemma_fields(code);
    lemma_parts(c.with_reg(31, c.regs.pc));
}

/// An instruction keeps the processor valid, its cycle count, and register 0 at
/// zero.
proof fn lemma_executed(c: Cpu, bus: BusState, code: u32)
    requires
        c.wf(),
    ensures
        keeps(c, c.executed(bus, code).0),
{
    reveal(Cpu::executed);
    lemma_special(c, code);
    lemma_coprocessor(c, code);
    lemma_memory(c, bus, code);
    lemma_immediate(c, code);
}

/// Register 0 stays zero through every instruction.
pub proof fn law_zero_register_executed(c: Cpu, bus: BusState, code: u32)
    requires
        c.wf(),
        c.reg(0) == 0,
    ensures
        c.executed(bus, code).0.reg(0) == 0,
{
    lemma_executed(c, bus, code);
}

/// Register 0 stays zero through every step, with whatever loads, jumps, BIOS
/// calls and interrupts come with it.
pub proof fn law_zero_register(c: Cpu, bus: BusState)
    requires
        c.wf(),
        c.reg(0) == 0,
    ensures
        c.stepped(bus).0.reg(0) == 0,
{
    let code = bus.word(c.regs.pc);
    let b = BusState { last_cycle: (c.regs.cycle + 2) as u64, ..bus.word_read(c.regs.pc) };
    lemma_executed(c.fetched(code), b, code);
    lemma_retired(c.fetched(code).executed(b, code).0);
}

/// So does the end of an instruction.
proof fn lemma_retired(c: Cpu)
    requires
        c.wf(),
    ensures
        c.retired().wf(),
        c.retired().regs.cycle == c.regs.cycle,
        c.reg(0) == 0 ==> c.retired().reg(0) == 0,
{
}

/// Every step takes two cycles.
pub proof fn law_step_cycles(c: Cpu, bus: BusState)
    requires
        c.wf(),
        c.regs.cycle + 2 <= u64::MAX,
    ensures
        c.stepped(bus).0.regs.cycle == c.regs.cycle + 2,
{
    let code = bus.word(c.regs.pc);
    let b = BusState { last_cycle: (c.regs.cycle + 2) as u64, ..bus.word_read(c.regs.pc) };
    lemma_executed(c.fetched(code), b, code);
    lemma_retired(c.fetched(code).executed(b, code).0);
}

/// A load arrives one instruction late: when the load itself is finished, the
/// register still has its old value, and after the next instruction it has the
/// new one.
pub proof fn law_load_delay(c: Cpu, reg: u32, value: u32, mask: u32)
    requires
        c.wf(),
        0 < reg < 32,
        !c.delayed_load[c.other_slot()].active,
    ensures
        c.load_delayed(reg, value, mask).retired().reg(reg as int) == c.reg(reg as int),
        c.load_delayed(reg, value, mask).retired().retired().reg(reg as int) == (c.reg(
            reg as int,
        ) & mask) | value,
{
}

/// The result of an instruction in the delay of a load to the same register is
/// not overwritten by that load.
pub proof fn law_result_beats_load(c: Cpu, reg: u32, loaded: u32, value: u32)
    requires
        c.wf(),
        0 < reg < 32,
        !c.delayed_load[c.other_slot()].active,
    ensures
        c.load_delayed(reg, loaded, 0).retired().assigned(reg as int, value).retired().reg(
            reg as int,
        ) == value,
{
}

/// A jump is taken one instruction late: the instruction after it, its delay
/// slot, is executed first.
pub proof fn law_branch_delay(c: Cpu, target: u32)
    requires
        c.wf(),
        !c.delayed_load[c.other_slot()].pc_active,
    ensures
        c.branched(target).next_is_delay_slot,
        c.branched(target).retired().regs.pc == c.regs.pc,
        c.branched(target).retired().retired().regs.pc == target,
{
}

/// Entering an exception disables interrupts, saves where to return to and why,
/// and goes to the handler that the status chooses.
pub proof fn law_exception_entry(c: Cpu, cause: u32, in_delay_slot: bool)
    ensures
        c.vectored(cause, in_delay_slot).status() & 1 == 0,
        !in_delay_slot ==> c.vectored(cause, in_delay_slot).regs.cp0[CP0_EPC as int]
            == c.regs.pc,
        in_delay_slot ==> c.vectored(cause, in_delay_slot).regs.cp0[CP0_EPC as int]
            == c.regs.pc.wrapping_sub(4),
        !in_delay_slot ==> c.vectored(cause, in_delay_slot).regs.cp0[CP0_CAUSE as int] == cause,
        c.vectored(cause, in_delay_slot).regs.pc == (if c.status() & 0x0040_0000 != 0 {
            0xBFC0_0180u32
        } else {
            0x8000_0080u32
        }),
        c.vectored(cause, in_delay_slot).regs.gpr == c.regs.gpr,
{
    lemma_status_stack(c.status(), cause, 0);
}

proof fn lemma_status_stack(s: u32, cause: u32, status: u32)
    by (bit_vector)
    ensures
        cause & 0x0300 == 0 ==> cause & status & 0x0300 == 0 && (cause | 0x8000_0000) & status
            & 0x0300 == 0,
        ((s & !0x3Fu32) | ((s & 0x0F) << 2u32)) & 1 == 0,
        ((((s & !0x3Fu32) | ((s & 0x0F) << 2u32)) & 0xFFFF_FFF0) | ((((s & !0x3Fu32) | ((s
            & 0x0F) << 2u32)) & 0x3C) >> 2u32)) & 0x0F == s & 0x0F,
        ((((s & !0x3Fu32) | ((s & 0x0F) << 2u32)) & 0xFFFF_FFF0) | ((((s & !0x3Fu32) | ((s
            & 0x0F) << 2u32)) & 0x3C) >> 2u32)) & !0x3Fu32 == s & !0x3Fu32,
{
}

/// The instruction that returns from an exception undoes the exception's entry:
/// the interrupt enable and mode bits, current and previous, are as they were, and
/// so are all status bits outside the stack of these bits. It changes nothing else,
/// not the program counter, which a jump to the saved address sets. No software
/// interrupt may be pending, which would start the next exception at once.
pub proof fn law_exception_return(
    c: Cpu,
    cause: u32,
    in_delay_slot: bool,
    bus: BusState,
    code: u32,
)
    requires
        cause & 0x0300 == 0,
        code >> 26u32 == 0x10,
        (code >> 21u32) & 0x1F == 0x10,
    ensures
        ({
            let v = c.vectored(cause, in_delay_slot);
            let (r, b) = v.executed(bus, code);
            &&& r.status() & 0x0F == c.status() & 0x0F
            &&& r.status() & !0x3Fu32 == c.status() & !0x3Fu32
            &&& r == v.with_cp0(CP0_STATUS as int, r.status())
            &&& b == bus
        }),
{
    reveal(Cpu::executed);
    let v = c.vectored(cause, in_delay_slot);
    let status = v.status();
    let popped = (status & 0xFFFF_FFF0) | ((status & 0x3C) >> 2u32);
    lemma_status_stack(c.status(), cause, popped);
    assert(v.executed(bus, code).0 == v.with_cp0(CP0_STATUS as int, popped));
}

/// A load or a store of a word at an address that is not aligned traps: nothing
/// is read or written, and the address is kept for the handler.
pub proof fn law_misaligned_word(c: Cpu, bus: BusState, code: u32)
    requires
        c.address(code) & 3 != 0,
    ensures
        code >> 26u32 == 0x23 ==> c.executed(bus, code) == (
            c.misaddressed(c.address(code), Exception::LoadAddressError),
            bus,
        ),
        code >> 26u32 == 0x2B && c.status() & 0x10000 == 0 ==> c.executed(bus, code) == (
            c.misaddressed(c.address(code), Exception::StoreAddressError),
            bus,
        ),
        c.misaddressed(c.address(code), Exception::LoadAddressError).regs.cp0[CP0_BADVADDR as int]
            == c.address(code),
{
    reveal(Cpu::executed);
}

/// While the cache is isolated, stores do not reach the bus.
pub proof fn law_isolated_stores(c: Cpu, bus: BusState, code: u32)
    requires
        c.status() & 0x10000 != 0,
        code >> 26u32 == 0x28 || code >> 26u32 == 0x29 || code >> 26u32 == 0x2A || code >> 26u32
            == 0x2B || code >> 26u32 == 0x2E,
    ensures
        c.executed(bus, code) == (c, bus),
{
    reveal(Cpu::executed);
}

/// What is stored is loaded back: a word stored to main memory or the scratchpad
/// and then loaded from the same address is on its way to the register.
pub proof fn law_store_then_load(c: Cpu, bus: BusState, store: u32, load: u32)
    requires
        c.wf(),
        bus.wf(),
        store >> 26u32 == 0x2B,
        load >> 26u32 == 0x23,
        c.status() & 0x10000 == 0,
        c.address(load) == c.address(store),
        c.address(store) & 3 == 0,
        in_ram(physical(c.address(store)))
            || in_scratchpad(
            physical(c.address(store)),
        ),
    ensures
        ({
            let (c1, b1) = c.executed(bus, store);
            c1.executed(b1, load).0 == c.load_delayed(
                rt_of(load) as u32,
                c.reg(rt_of(store)),
                0,
            )
        }),
{
    reveal(Cpu::executed);
    let addr = c.address(store);
    lemma_aligned_fits(addr);
    law_memory_read_back(bus, addr, 0, 0, c.reg(rt_of(store)));
}

proof fn lemma_unaligned_parts(b: [u8; 8], m0: u32, m1: u32)
    requires
        m0 == (b[0] as u32) | ((b[1] as u32) << 8) | ((b[2] as u32) << 16) | ((b[3] as u32) << 24),
        m1 == (b[4] as u32) | ((b[5] as u32) << 8) | ((b[6] as u32) << 16) | ((b[7] as u32) << 24),
    ensures
        (m0 >> 8u32) | (m1 << 24u32) == (b[1] as u32) | ((b[2] as u32) << 8) | ((b[3] as u32)
            << 16) | ((b[4] as u32) << 24),
        (m0 >> 16u32) | (m1 << 16u32) == (b[2] as u32) | ((b[3] as u32) << 8) | ((b[4] as u32)
            << 16) | ((b[5] as u32) << 24),
        (m0 >> 24u32) | (m1 << 8u32) == (b[3] as u32) | ((b[4] as u32) << 8) | ((b[5] as u32)
            << 16) | ((b[6] as u32) << 24),
{
    let (b0, b1, b2, b3) = (b[0], b[1], b[2], b[3]);
    let (b4, b5, b6, b7) = (b[4], b[5], b[6], b[7]);
    assert((m0 >> 8u32) | (m1 << 24u32) == (b1 as u32) | ((b2 as u32) << 8) | ((b3 as u32) << 16)
        | ((b4 as u32) << 24) && (m0 >> 16u32) | (m1 << 16u32) == (b2 as u32) | ((b3 as u32) << 8)
        | ((b4 as u32) << 16) | ((b5 as u32) << 24) && (m0 >> 24u32) | (m1 << 8u32) == (b3 as u32)
        | ((b4 as u32) << 8) | ((b5 as u32) << 16) | ((b6 as u32) << 24)) by (bit_vector)
        requires
            m0 == (b0 as u32) | ((b1 as u32) << 8) | ((b2 as u32) << 16) | ((b3 as u32) << 24),
            m1 == (b4 as u32) | ((b5 as u32) << 8) | ((b6 as u32) << 16) | ((b7 as u32) << 24),
    ;
}

/// The two halves of a load at any address make up the word there: the left part
/// taken at the last byte and the right part taken at the first.
pub proof fn law_unaligned_load(ram: Seq<u8>, addr: u32, before: u32)
    requires
        addr + 7 < ram.len(),
        ram.len() <= 0x20_0000,
    ensures
        ({
            let last = (addr + 3) as u32;
            let left = (before & left_kept(last)) | left_value(
                last,
                le32(ram, (last & !3u32) as int),
            );
            (left & right_kept(addr)) | right_value(addr, le32(ram, (addr & !3u32) as int))
                == le32(ram, addr as int)
        }),
{
    let last = (addr + 3) as u32;
    let at = addr & !3u32;
    lemma_word_of(addr);
    let m0 = le32(ram, at as int);
    let m1 = le32(ram, at + 4);
    if addr & 3 == 0 {
        lemma_merge(before, 0, m0, m0);
    } else {
        let b = [
            ram[at as int],
            ram[at + 1],
            ram[at + 2],
            ram[at + 3],
            ram[at + 4],
            ram[at + 5],
            ram[at + 6],
            ram[at + 7],
        ];
        lemma_unaligned_parts(b, m0, m1);
        lemma_merge(before, 0, m0, m1);
    }
}

/// Where the words of an unaligned access lie.
proof fn lemma_word_of(addr: u32)
    requires
        addr < 0x20_0000,
    ensures
        addr & 3 < 4,
        addr & !3u32 == addr - (addr & 3),
        ((addr + 3) as u32) & !3u32 == (if addr & 3 == 0 {
            addr - (addr & 3)
        } else {
            addr - (addr & 3) + 4
        }),
        ((addr + 3) as u32) & 3 == (if addr & 3 == 0 {
            3
        } else {
            (addr & 3) - 1
        }),
{
    assert(addr & 3 < 4 && addr & !3u32 == addr - (addr & 3) && ((addr + 3) as u32) & !3u32 == (
    if addr & 3 == 0 {
        addr - (addr & 3)
    } else {
        addr - (addr & 3) + 4
    }) && ((addr + 3) as u32) & 3 == (if addr & 3 == 0 {
        3
    } else {
        (addr & 3) - 1
    })) by (bit_vector)
        requires
            addr < 0x20_0000,
    ;
}

/// How the parts of a word go together.
proof fn lemma_merge(r: u32, v: u32, m0: u32, m1: u32)
    by (bit_vector)
    ensures
        (((m0 & 0x0000_00FF) | (v << 8u32)) >> 8u32) | (((m1 & 0xFFFF_FF00) | (v >> 24u32))
            << 24u32) == v,
        (((m0 & 0x0000_FFFF) | (v << 16u32)) >> 16u32) | (((m1 & 0xFFFF_0000) | (v >> 16u32))
            << 16u32) == v,
        (((m0 & 0x00FF_FFFF) | (v << 24u32)) >> 24u32) | (((m1 & 0xFF00_0000) | (v >> 8u32))
            << 8u32) == v,
        ((((r & 0u32) | m0) & 0u32) | m0) == m0,
        ((((r & 0x00FF_FFFF) | (m1 << 24u32)) & 0xFF00_0000) | (m0 >> 8u32)) == (m0 >> 8u32) | (m1
            << 24u32),
        ((((r & 0x0000_FFFF) | (m1 << 16u32)) & 0xFFFF_0000) | (m0 >> 16u32)) == (m0 >> 16u32) | (
        m1 << 16u32),
        ((((r & 0x0000_00FF) | (m1 << 8u32)) & 0xFFFF_FF00) | (m0 >> 24u32)) == (m0 >> 24u32) | (m1
            << 8u32),
{
}

/// The two halves of a store at any address store the word there.
pub proof fn law_unaligned_store(ram: Seq<u8>, addr: u32, val: u32)
    requires
        addr + 7 < ram.len(),
        ram.len() <= 0x20_0000,
    ensures
        ({
            let last = (addr + 3) as u32;
            let l = (last & !3u32) as int;
            let f = (addr & !3u32) as int;
            let ram1 = put32(ram, l, left_stored(last, le32(ram, l), val));
            let ram2 = put32(ram1, f, right_stored(addr, le32(ram1, f), val));
            le32(ram2, addr as int) == val
        }),
{
    let last = (addr + 3) as u32;
    lemma_word_of(addr);
    let l = (last & !3u32) as int;
    let f = (addr & !3u32) as int;
    let w1 = left_stored(last, le32(ram, l), val);
    let ram1 = put32(ram, l, w1);
    let m0 = le32(ram1, f);
    let w0 = right_stored(addr, m0, val);
    let ram2 = put32(ram1, f, w0);
    lemma_word_read_back(ram1, f, 0, w0);
    if addr & 3 != 0 {
        lemma_word_read_back(ram, l, 0, w1);
        lemma_word_write_frame(ram1, f, w0, l);
        let b = [
            ram2[f],
            ram2[f + 1],
            ram2[f + 2],
            ram2[f + 3],
            ram2[f + 4],
            ram2[f + 5],
            ram2[f + 6],
            ram2[f + 7],
        ];
        lemma_unaligned_parts(b, le32(ram2, f), le32(ram2, l));
        lemma_merge(0, val, m0, le32(ram, l));
    }
}

/// A product is held by the two result registers together.
pub proof fn law_multiply(c: Cpu, code: u32)
    ensures
        ({
            let r = c.after_multu(code);
            r.regs.hi * 0x1_0000_0000 + r.regs.lo == c.reg(rs_of(code))
                * c.reg(rt_of(code))
        }),
{
    let a = c.reg(rs_of(code));
    let b = c.reg(rt_of(code));
    lemma_unsigned_product(a as int, b as int);
    crate::bits::lemma_halves_of((a * b) as u64, 0);
}

/// A hardware interrupt is taken exactly if one is both pending and enabled and
/// the status lets it through.
pub proof fn law_interrupt_taken(c: Cpu, bus: BusState)
    requires
        c.regs.pc != 0x8000_0080,
        c.regs.pc != 0xBFC0_0180,
    ensures
        ({
            let (d, b) = c.branch_tested(bus);
            d.regs.pc != c.regs.pc <==> b.istat() & b.imask() != 0 && c.status() & 0x401 == 0x401
        }),
{
}

/// The game on the disc is started at most once.
pub proof fn law_game_starts_once(c: Cpu, bus: BusState, later: BusState)
    requires
        c.boots(bus),
    ensures
        !c.intercepted(bus).0.boots(later),
{
}

} // verus!
