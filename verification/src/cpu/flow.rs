//! Laws of running programs: from step to step, with delay slots, interrupts, unaligned
//! accesses and the calls that print.

use crate::bits::{
    lemma_control_of, lemma_fields_of, lemma_masked_of, lemma_parts_of, lemma_signed_of, signed16,
    signed32, word_of,
};
use crate::bus::laws::law_memory_reads_are_pure;
use crate::bus::state::{in_ram, physical, BusState};
use crate::bus::transfer_laws::{lemma_word_at, word_at};
use crate::cpu::Cpu;
use crate::cpu::isa::{
    address_of, branch_target, imm_field, law_branches, lemma_decoded, op_field, quiet, rs_value,
    rt_field, rt_value,
};
use crate::cpu::laws::{law_unaligned_load, law_unaligned_store};
use crate::cpu::semantics::{
    left_kept, left_stored, left_value, right_kept, right_stored, right_value,
};
use crate::word::{le32, put32};
use vstd::prelude::*;

verus! {

/// Whether the processor can be interrupted: the current enable bit of the status.
pub open spec fn interruptible(c: Cpu) -> bool {
    c.regs.cp0[12] % 2 == 1
}

/// The word that does nothing.
pub open spec fn nop() -> u32 {
    0
}

proof fn lemma_nop(c: Cpu, bus: BusState)
    requires
        c.wf(),
        c.reg(0) == 0,
    ensures
        c.executed(bus, 0) == (c.load_cancelled(0), bus),
{
    reveal(Cpu::executed);
    lemma_decoded(c, 0);
}

/// A step fetches the word at the program counter, executes it with the program counter
/// past it, and takes two cycles. Without a jump under way execution goes on at the next
/// word.
pub proof fn law_straight_line(c: Cpu, bus: BusState)
    requires
        quiet(c),
        c.reg(0) == 0,
        !c.in_delay_slot,
        !c.next_is_delay_slot,
        in_ram(physical(c.regs.pc)),
        bus.word(c.regs.pc) == nop(),
        c.regs.cycle + 2 <= u64::MAX,
    ensures
        ({
            let (d, b) = c.stepped(bus);
            &&& d.regs.pc == c.regs.pc.wrapping_add(4)
            &&& d.regs.gpr == c.regs.gpr
            &&& d.regs.cp0 == c.regs.cp0
            &&& d.regs.cycle == c.regs.cycle + 2
            &&& b == (BusState { last_cycle: (c.regs.cycle + 2) as u64, ..bus })
            &&& quiet(d)
            &&& !d.in_delay_slot
            &&& !d.next_is_delay_slot
        }),
{
    law_memory_reads_are_pure(bus, c.regs.pc);
    let b = BusState { last_cycle: (c.regs.cycle + 2) as u64, ..bus };
    lemma_nop(c.fetched(0), b);
}

/// A loop goes round: a taken branch and a delay slot that does nothing lead, in two
/// steps, the signed immediate number of words from the delay slot. With interrupts
/// disabled nothing comes in between.
pub proof fn law_loop(c: Cpu, bus: BusState, code: u32)
    requires
        quiet(c),
        c.reg(0) == 0,
        !c.in_delay_slot,
        !c.next_is_delay_slot,
        !interruptible(c),
        !c.fast_boot,
        c.regs.pc < 0xFFFF_0000,
        in_ram(physical(c.regs.pc)),
        in_ram(physical((c.regs.pc + 4) as u32)),
        bus.word(c.regs.pc) == code,
        bus.word((c.regs.pc + 4) as u32) == nop(),
        c.regs.cycle + 4 <= u64::MAX,
        op_field(code) == 4 && rs_value(c, code) == rt_value(c, code) || op_field(code) == 5
            && rs_value(c, code) != rt_value(c, code) || op_field(code) == 6 && signed32(
            rs_value(c, code),
        ) <= 0 || op_field(code) == 7 && signed32(rs_value(c, code)) > 0,
    ensures
        ({
            let (d, b) = c.stepped(bus);
            let (e, b2) = d.stepped(b);
            &&& d.regs.pc == c.regs.pc + 4
            &&& e.regs.pc == word_of(c.regs.pc + 4 + 4 * signed16(imm_field(code)))
            &&& e.regs.gpr == c.regs.gpr
            &&& !e.next_is_delay_slot
            &&& !e.in_delay_slot
        }),
{
    law_memory_reads_are_pure(bus, c.regs.pc);
    let b = BusState { last_cycle: (c.regs.cycle + 2) as u64, ..bus };
    let f = c.fetched(code);
    law_branches(f, b, code);
    lemma_signed_of(rs_value(c, code), 0, 0);
    lemma_signed_of(rt_value(c, code), 0, 0);
    lemma_branch_state(f, b, code);
    let target = branch_target(f, code);
    let d = c.stepped(bus).0;
    assert(c.stepped(bus) == (f.branched(target).retired(), b));
    let pc2 = (c.regs.pc + 4) as u32;
    lemma_only_clock(bus, b, pc2);
    law_memory_reads_are_pure(b, pc2);
    let b2 = BusState { last_cycle: (c.regs.cycle + 4) as u64, ..b };
    lemma_nop(d.fetched(0), b2);
    lemma_fields_of(c.status());
    let g = d.advanced(b).0;
    assert(g.in_delay_slot);
    assert(g.regs.pc == target);
    lemma_masked(c.status());
}

proof fn lemma_masked(s: u32)
    ensures
        s % 2 == 0 ==> s & 0x401 != 0x401,
{
    lemma_parts_of(s);
}

proof fn lemma_only_clock(a: BusState, b: BusState, addr: u32)
    requires
        b == (BusState { last_cycle: b.last_cycle, ..a }),
        in_ram(physical(addr)),
    ensures
        a.word(addr) == b.word(addr),
{
    reveal(BusState::word);
}

proof fn lemma_branch_state(c: Cpu, bus: BusState, code: u32)
    requires
        quiet(c),
        op_field(code) == 4 && rs_value(c, code) == rt_value(c, code) || op_field(code) == 5
            && rs_value(c, code) != rt_value(c, code) || op_field(code) == 6 && signed32(
            rs_value(c, code),
        ) <= 0 || op_field(code) == 7 && signed32(rs_value(c, code)) > 0,
    ensures
        c.executed(bus, code) == (c.branched(branch_target(c, code)), bus),
{
    reveal(Cpu::executed);
    lemma_decoded(c, code);
    lemma_signed_of(rs_value(c, code), 0, 0);
}

/// After a delay slot, and only there, interrupts are looked at: one that is pending and
/// enabled is taken exactly if the status enables hardware interrupts and interrupts at
/// all. The handler finds the address to go on at.
pub proof fn law_interrupt_entry(c: Cpu, bus: BusState)
    requires
        c.wf(),
    ensures
        ({
            let (d, b) = c.branch_tested(bus);
            let status = c.regs.cp0[12];
            let taken = b.istat() & b.imask() != 0 && status % 2 == 1 && status / 0x400 % 2 == 1;
            &&& taken ==> d.regs.cp0[14] == c.regs.pc && d.regs.cp0[13] == 0x400 && d.regs.cp0[12]
                == status / 64 * 64 + status % 16 * 4 && d.regs.pc == (if status / 0x40_0000 % 2
                == 1 {
                0xBFC0_0180u32
            } else {
                0x8000_0080u32
            }) && d.regs.gpr == c.regs.gpr
            &&& !taken ==> d == c
        }),
{
    let s = c.status();
    lemma_control_of(s, 0, 0);
    lemma_parts_of(s);
}

/// A software interrupt is taken as soon as it is both pending and enabled.
pub proof fn law_software_interrupt(c: Cpu)
    requires
        c.wf(),
    ensures
        ({
            let d = c.sw_ints_tested();
            let (status, cause) = (c.regs.cp0[12], c.regs.cp0[13]);
            let taken = status % 2 == 1 && ((status / 0x100 % 2 == 1 && cause / 0x100 % 2 == 1) || (
            status / 0x200 % 2 == 1 && cause / 0x200 % 2 == 1));
            &&& !taken ==> d == c
            &&& taken ==> d.regs.cp0[12] == status / 64 * 64 + status % 16 * 4 && d.regs.pc == (
            if status / 0x40_0000 % 2 == 1 {
                0xBFC0_0180u32
            } else {
                0x8000_0080u32
            }) && !d.in_delay_slot && d.regs.cp0[14] == (if c.in_delay_slot {
                c.regs.pc.wrapping_sub(4)
            } else {
                c.regs.pc
            }) && d.regs.gpr == c.regs.gpr
        }),
{
    let (s, k) = (c.status(), c.regs.cp0[13]);
    lemma_control_of(s, 0, 0);
    lemma_fields_of(s);
    lemma_masked_of(k, s);
}

/// A word at any address of main memory is loaded by the two partial loads: the left
/// one at its last byte and the right one at its first. The register then holds the
/// four bytes there, the lowest first.
pub proof fn law_unaligned_load_pair(c: Cpu, bus: BusState, left: u32, right: u32)
    requires
        quiet(c),
        bus.wf(),
        op_field(left) == 0x22,
        op_field(right) == 0x26,
        rt_field(left) == rt_field(right),
        rt_field(left) != 0,
        address_of(c, right) + 7 < 0x20_0000,
        address_of(c, left) == address_of(c, right) + 3,
    ensures
        ({
            let (d, b) = c.executed(bus, left);
            let (e, b2) = d.retired().executed(b, right);
            &&& e.retired().retired().regs.gpr[rt_field(left)] == word_at(
                bus.ram,
                address_of(c, right) as int,
            )
            &&& b2 == bus
        }),
{
    let (first, last) = (address_of(c, right), address_of(c, left));
    let rt = rt_field(left);
    let (f, l) = (first & !3u32, last & !3u32);
    lemma_low_address(first);
    lemma_low_address(last);
    lemma_partial_load(c, bus, left);
    let before = c.regs.gpr[rt];
    let (lv, lk) = (left_value(last, le32(bus.ram, l as int)), left_kept(last));
    let (rv, rk) = (right_value(first, le32(bus.ram, f as int)), right_kept(first));
    let d = c.load_delayed(rt as u32, lv, lk).retired();
    assert(d.regs == c.regs && d.wf());
    assert(address_of(d, right) == first);
    lemma_partial_load(d, bus, right);
    lemma_two_loads(c, rt as u32, lv, lk, rv, rk);
    law_unaligned_load(bus.ram, first, before);
    lemma_word_at(bus.ram, first as int);
}

/// What a partial load from main memory starts.
proof fn lemma_partial_load(c: Cpu, bus: BusState, code: u32)
    requires
        c.wf(),
        address_of(c, code) < 0x20_0000,
    ensures
        ({
            let a = address_of(c, code);
            let mem = le32(bus.ram, (a & !3u32) as int);
            let rt = rt_field(code) as u32;
            &&& op_field(code) == 0x22 ==> c.executed(bus, code) == (
                c.load_delayed(rt, left_value(a, mem), left_kept(a)),
                bus,
            )
            &&& op_field(code) == 0x26 ==> c.executed(bus, code) == (
                c.load_delayed(rt, right_value(a, mem), right_kept(a)),
                bus,
            )
        }),
{
    reveal(Cpu::executed);
    lemma_decoded(c, code);
    let a = address_of(c, code);
    lemma_low_address(a);
    lemma_low_address(a & !3u32);
    lemma_memory_word(bus, a & !3u32);
    law_memory_reads_are_pure(bus, a & !3u32);
}

/// Two loads into one register, one after the other, arrive one on top of the other.
proof fn lemma_two_loads(c: Cpu, rt: u32, v1: u32, k1: u32, v2: u32, k2: u32)
    requires
        quiet(c),
        0 < rt < 32,
    ensures
        ({
            let d = c.load_delayed(rt, v1, k1).retired();
            let e = d.load_delayed(rt, v2, k2).retired().retired();
            e.regs.gpr[rt as int] == (((c.regs.gpr[rt as int] & k1) | v1) & k2) | v2
        }),
{
    let i = c.current_delayed_load as int;
    let d = c.load_delayed(rt, v1, k1).retired();
    assert(d.delayed_load[i].active && d.delayed_load[i].index == rt);
    assert(!d.delayed_load[1 - i].active);
    assert(d.current_delayed_load == 1 - i);
    let e = d.load_delayed(rt, v2, k2);
    assert(e.delayed_load[i].active && e.delayed_load[1 - i].active);
    let g = e.retired();
    assert(g.regs.gpr[rt as int] == (c.regs.gpr[rt as int] & k1) | v1);
}

proof fn lemma_low_address(a: u32)
    ensures
        a < 0x20_0000 ==> physical(a) == a && a & !3u32 <= a && (a & !3u32) % 4 == 0,
{
    lemma_fields_of(a);
}

proof fn lemma_memory_word(bus: BusState, a: u32)
    requires
        a < 0x20_0000,
    ensures
        bus.word(a) == le32(bus.ram, a as int),
        forall|v: u32|
            #[trigger] bus.word_written(a, v) == (BusState { ram: put32(bus.ram, a as int, v), ..bus
            }),
{
    reveal(BusState::word);
    reveal(BusState::word_written);
    lemma_low_address(a);
}

/// A word is stored at any address of main memory by the two partial stores.
pub proof fn law_unaligned_store_pair(c: Cpu, bus: BusState, left: u32, right: u32)
    requires
        c.wf(),
        bus.wf(),
        c.regs.cp0[12] / 0x1_0000 % 2 == 0,
        op_field(left) == 0x2A,
        op_field(right) == 0x2E,
        rt_field(left) == rt_field(right),
        address_of(c, right) + 7 < 0x20_0000,
        address_of(c, left) == address_of(c, right) + 3,
    ensures
        ({
            let (d, b) = c.executed(bus, left);
            let (e, b2) = d.executed(b, right);
            &&& word_at(b2.ram, address_of(c, right) as int) == rt_value(c, left)
            &&& e == c
        }),
{
    let (first, last) = (address_of(c, right), address_of(c, left));
    let (f, l) = (first & !3u32, last & !3u32);
    lemma_low_address(first);
    lemma_low_address(last);
    lemma_partial_store(c, bus, left);
    let b = c.executed(bus, left).1;
    lemma_partial_store(c, b, right);
    law_unaligned_store(bus.ram, first, rt_value(c, left));
    lemma_word_at(c.executed(b, right).1.ram, first as int);
}

/// What a partial store to main memory does.
proof fn lemma_partial_store(c: Cpu, bus: BusState, code: u32)
    requires
        c.wf(),
        c.regs.cp0[12] / 0x1_0000 % 2 == 0,
        address_of(c, code) < 0x20_0000,
    ensures
        ({
            let a = address_of(c, code);
            let at = (a & !3u32) as int;
            let mem = le32(bus.ram, at);
            let v = rt_value(c, code);
            &&& op_field(code) == 0x2A ==> c.executed(bus, code) == (
                c,
                BusState { ram: put32(bus.ram, at, left_stored(a, mem, v)), ..bus },
            )
            &&& op_field(code) == 0x2E ==> c.executed(bus, code) == (
                c,
                BusState { ram: put32(bus.ram, at, right_stored(a, mem, v)), ..bus },
            )
        }),
{
    reveal(Cpu::executed);
    lemma_decoded(c, code);
    lemma_control_of(c.status(), 0, 0);
    let a = address_of(c, code);
    lemma_low_address(a);
    lemma_low_address(a & !3u32);
    lemma_memory_word(bus, a & !3u32);
    law_memory_reads_are_pure(bus, a & !3u32);
}

/// The characters of some bytes that are shown: ASCII, without zeros.
pub open spec fn shown(bytes: Seq<u8>) -> Seq<u8> {
    bytes.filter(|ch: u8| 0 < ch < 0x80)
}

proof fn lemma_printed_block(bus: BusState, addr: u32, n: nat)
    requires
        bus.ram.len() == 0x20_0000,
        addr + n <= 0x20_0000,
    ensures
        bus.printed_block(addr, n) == (BusState {
            console: bus.console + shown(bus.ram.subrange(addr as int, addr + n)),
            ..bus
        }),
    decreases n,
{
    reveal_with_fuel(Seq::filter, 1);
    if n == 0 {
        assert(bus.ram.subrange(addr as int, addr as int) =~= Seq::empty());
        assert(shown(Seq::empty()) =~= Seq::empty());
        assert(bus.console + Seq::<u8>::empty() =~= bus.console);
    } else {
        lemma_low_address(addr);
        let ch = bus.ram[addr as int];
        reveal(BusState::byte);
        reveal(BusState::byte_read);
        let next = bus.printed(ch);
        assert(bus.byte(addr) == ch && bus.byte_read(addr) == bus);
        lemma_printed_block(next, (addr + 1) as u32, (n - 1) as nat);
        let bytes = bus.ram.subrange(addr as int, addr + n);
        let rest = bus.ram.subrange(addr + 1, addr + n);
        assert(bytes =~= seq![ch] + rest);
        lemma_shown_first(ch, rest);
        if 0 < ch < 0x80 {
            assert(bus.console.push(ch) + shown(rest) =~= bus.console + shown(bytes));
        }
    }
}

proof fn lemma_shown_first(ch: u8, rest: Seq<u8>)
    ensures
        shown(seq![ch] + rest) == (if 0 < ch < 0x80 {
            seq![ch] + shown(rest)
        } else {
            shown(rest)
        }),
    decreases rest.len(),
{
    reveal(Seq::filter);
    let p = |c: u8| 0 < c < 0x80;
    if rest.len() == 0 {
        assert((seq![ch] + rest) =~= seq![ch]);
        assert(seq![ch].drop_last() =~= Seq::empty());
        assert(Seq::<u8>::empty().filter(p) =~= Seq::empty());
        assert(seq![ch].filter(p) =~= if p(ch) {
            seq![ch]
        } else {
            Seq::empty()
        });
        assert(seq![ch] + Seq::<u8>::empty() =~= seq![ch]);
        assert(rest.filter(p) =~= Seq::empty());
    } else {
        lemma_shown_first(ch, rest.drop_last());
        assert((seq![ch] + rest).drop_last() =~= seq![ch] + rest.drop_last());
        assert((seq![ch] + rest).last() == rest.last());
        assert(shown(seq![ch] + rest) =~= if 0 < ch < 0x80 {
            seq![ch] + shown(rest)
        } else {
            shown(rest)
        });
    }
}

/// What programs print reaches the console. A call of the BIOS is recognised by the
/// address jumped to and the number in register 9: one prints the character in register
/// 4, another the bytes from register 5 on, as many as register 6 says, if the file is
/// number 1.
pub proof fn law_console(c: Cpu, bus: BusState)
    requires
        c.wf(),
        bus.wf(),
        !c.fast_boot,
    ensures
        ({
            let (d, b) = c.intercepted(bus);
            let call = c.regs.gpr[9] as int % 0x100;
            let ch = (c.regs.gpr[4] % 0x100) as u8;
            let (from, len) = (c.regs.gpr[5], c.regs.gpr[6]);
            let pc = c.regs.pc;
            let prints_char = pc == 0xA0 && (call == 0x3C || call == 0x09) || pc == 0xB0 && (call
                == 0x3D || call == 0x3B);
            let writes = pc == 0xA0 && call == 0x03 || pc == 0xB0 && call == 0x35;
            &&& d == c
            &&& prints_char ==> b == (BusState {
                console: bus.console + shown(seq![ch]),
                ..bus
            })
            &&& writes && c.regs.gpr[4] == 1 && from + len <= 0x20_0000 ==> b == (BusState {
                console: bus.console + shown(bus.ram.subrange(from as int, from + len)),
                ..bus
            })
            &&& writes && c.regs.gpr[4] != 1 ==> b == bus
            &&& pc != 0xA0 && pc != 0xB0 ==> b == bus
        }),
{
    lemma_fields_of(c.regs.gpr[9]);
    lemma_fields_of(c.regs.gpr[4]);
    let (from, len) = (c.regs.gpr[5], c.regs.gpr[6]);
    if from + len <= 0x20_0000 {
        lemma_printed_block(bus, from, len as nat);
    }
    let ch = (c.regs.gpr[4] % 0x100) as u8;
    lemma_shown_first(ch, Seq::empty());
    assert(seq![ch] + Seq::<u8>::empty() =~= seq![ch]);
    reveal(Seq::filter);
    assert(shown(Seq::empty()) =~= Seq::empty());
    assert(seq![ch] + shown(Seq::empty()) =~= seq![ch]);
    assert(bus.console + seq![ch] =~= bus.console.push(ch));
    assert(bus.console + Seq::<u8>::empty() =~= bus.console);
}

/// A string in main memory is printed up to its zero, at most 1024 characters of it.
pub proof fn law_prints_string(bus: BusState, addr: u32, len: nat, n: nat)
    requires
        bus.ram.len() == 0x20_0000,
        addr + n <= 0x20_0000,
        addr + len < 0x20_0000,
        forall|i: int| 0 <= i < len ==> bus.ram[#[trigger] (addr + i)] != 0,
        bus.ram[addr + len] == 0,
    ensures
        bus.printed_string(addr, n) == (BusState {
            console: bus.console + shown(
                bus.ram.subrange(
                    addr as int,
                    addr + if len < n {
                        len
                    } else {
                        n
                    },
                ),
            ),
            ..bus
        }),
    decreases n,
{
    reveal(BusState::byte);
    reveal(BusState::byte_read);
    reveal(Seq::filter);
    if n == 0 || len == 0 {
        assert(bus.ram.subrange(addr as int, addr as int) =~= Seq::empty());
        assert(shown(Seq::empty()) =~= Seq::empty());
        assert(bus.console + Seq::<u8>::empty() =~= bus.console);
        if n > 0 {
            lemma_low_address(addr);
        }
    } else {
        lemma_low_address(addr);
        let ch = bus.ram[addr as int];
        assert(bus.ram[addr + 0] != 0);
        let next = bus.printed(ch);
        assert(bus.byte(addr) == ch && bus.byte_read(addr) == bus);
        assert forall|i: int| 0 <= i < len - 1 implies next.ram[#[trigger] ((addr + 1) as u32 + i)]
            != 0 by {
            assert(bus.ram[addr + (i + 1)] != 0);
        }
        law_prints_string(next, (addr + 1) as u32, (len - 1) as nat, (n - 1) as nat);
        let m: nat = if len < n {
            len
        } else {
            n
        };
        let bytes = bus.ram.subrange(addr as int, addr + m);
        let rest = bus.ram.subrange(addr + 1, addr + m);
        assert(bytes =~= seq![ch] + rest);
        lemma_shown_first(ch, rest);
        if 0 < ch < 0x80 {
            assert(bus.console.push(ch) + shown(rest) =~= bus.console + shown(bytes));
        }
    }
}

} // verus!
