use psoxide::bus::Bus;
use psoxide::cpu::exceptions::{exception, exception_raw, Exception};
use psoxide::cpu::registers::{Registers, GPR_NAMES};
use psoxide::cpu::trace::{dump_trace_ring, TraceEntry, TraceRing};
use psoxide::cpu::Cpu;

const BASE: u32 = 0x8000_1000;

fn i_type(op: u32, rs: u32, rt: u32, imm: u32) -> u32 {
    (op << 26) | (rs << 21) | (rt << 16) | (imm & 0xFFFF)
}

fn r_type(funct: u32, rs: u32, rt: u32, rd: u32, sa: u32) -> u32 {
    (rs << 21) | (rt << 16) | (rd << 11) | (sa << 6) | funct
}

/// A processor at the start of a program in main memory.
fn machine(program: &[u32]) -> (Cpu, Bus) {
    let mut bus = Bus::new();
    for (i, w) in program.iter().enumerate() {
        bus.write32(BASE + 4 * i as u32, *w);
    }
    let mut cpu = Cpu::new();
    cpu.reset();
    cpu.regs.pc = BASE;
    (cpu, bus)
}

/// Runs one instruction with two operands in registers 8 and 9 and gives
/// register 10.
fn alu(code: u32, a: u32, b: u32) -> u32 {
    let (mut cpu, mut bus) = machine(&[code]);
    cpu.regs.gpr[8] = a;
    cpu.regs.gpr[9] = b;
    cpu.step(&mut bus);
    assert_eq!(cpu.regs.pc, BASE + 4);
    cpu.regs.gpr[10]
}

fn hi_lo(funct: u32, a: u32, b: u32) -> (u32, u32) {
    let (mut cpu, mut bus) = machine(&[r_type(funct, 8, 9, 0, 0)]);
    cpu.regs.gpr[8] = a;
    cpu.regs.gpr[9] = b;
    cpu.step(&mut bus);
    (cpu.regs.hi, cpu.regs.lo)
}

#[test]
fn a_reset_processor_starts_in_the_bios() {
    let mut cpu = Cpu::new();
    cpu.reset();
    assert_eq!(cpu.regs.pc, 0xBFC0_0000);
    assert_eq!(cpu.regs.cp0[12], 0x1090_0000);
    assert_eq!(cpu.regs.cp0[15], 2);
    assert_eq!(cpu.regs.gpr, [0; 32]);
    let mut bus = Bus::new();
    cpu.step(&mut bus);
    assert_eq!(cpu.regs.pc, 0xBFC0_0004);
    assert_eq!(cpu.regs.cycle, 2);
    assert_eq!(bus.last_cycle, 2);
}

#[test]
fn register_zero_stays_zero() {
    let mut r = Registers::new();
    r.set_gpr(0, 5);
    r.set_gpr(31, 6);
    assert_eq!((r.gpr[0], r.gpr[31]), (0, 6));
    assert_eq!(GPR_NAMES[29], "sp");
    // addiu $0, $0, 5; lui $0, 5; lw $0, 0($0); nop.
    let (mut cpu, mut bus) =
        machine(&[i_type(9, 0, 0, 5), i_type(0xF, 0, 0, 5), i_type(0x23, 0, 0, 0), 0]);
    bus.write32(0, 0xFFFF_FFFF);
    for _ in 0..4 {
        cpu.step(&mut bus);
        assert_eq!(cpu.regs.gpr[0], 0);
    }
}

#[test]
fn arithmetic_wraps() {
    assert_eq!(alu(r_type(0x21, 8, 9, 10, 0), 0xFFFF_FFFF, 2), 1);
    assert_eq!(alu(r_type(0x23, 8, 9, 10, 0), 1, 2), 0xFFFF_FFFF);
    assert_eq!(alu(i_type(9, 8, 10, 0xFFFF), 5, 0), 4);
    assert_eq!(alu(r_type(0x20, 8, 9, 10, 0), 5, 6), 11);
    assert_eq!(alu(r_type(0x22, 8, 9, 10, 0), 5, 6), 0xFFFF_FFFF);
    assert_eq!(alu(i_type(8, 8, 10, 0xFFFE), 1, 0), 0xFFFF_FFFF);
}

#[test]
fn logic_works_on_bits() {
    assert_eq!(alu(r_type(0x24, 8, 9, 10, 0), 0xFF00, 0x0FF0), 0x0F00);
    assert_eq!(alu(r_type(0x25, 8, 9, 10, 0), 0xFF00, 0x0FF0), 0xFFF0);
    assert_eq!(alu(r_type(0x26, 8, 9, 10, 0), 0xFF00, 0x0FF0), 0xF0F0);
    assert_eq!(alu(r_type(0x27, 8, 9, 10, 0), 0xFF00, 0x0FF0), 0xFFFF_000F);
    assert_eq!(alu(i_type(0xC, 8, 10, 0x8001), 0xFFFF_FFFF, 0), 0x8001);
    assert_eq!(alu(i_type(0xD, 8, 10, 0x8001), 0x1_0000, 0), 0x1_8001);
    assert_eq!(alu(i_type(0xE, 8, 10, 0xFFFF), 0xFFFF, 0), 0);
    assert_eq!(alu(i_type(0xF, 0, 10, 0x1234), 0, 0), 0x1234_0000);
}

#[test]
fn comparisons_know_signs() {
    assert_eq!(alu(r_type(0x2A, 8, 9, 10, 0), 0xFFFF_FFFF, 1), 1);
    assert_eq!(alu(r_type(0x2B, 8, 9, 10, 0), 0xFFFF_FFFF, 1), 0);
    assert_eq!(alu(i_type(0xA, 8, 10, 0xFFFF), 0xFFFF_FFFE, 0), 1);
    assert_eq!(alu(i_type(0xB, 8, 10, 0xFFFF), 5, 0), 1);
}

#[test]
fn shifts_take_five_bits() {
    assert_eq!(alu(r_type(0x00, 0, 9, 10, 4), 0, 0x8000_0001), 0x10);
    assert_eq!(alu(r_type(0x02, 0, 9, 10, 4), 0, 0x8000_0001), 0x0800_0000);
    assert_eq!(alu(r_type(0x03, 0, 9, 10, 4), 0, 0x8000_0001), 0xF800_0000);
    assert_eq!(alu(r_type(0x04, 8, 9, 10, 0), 33, 3), 6);
    assert_eq!(alu(r_type(0x06, 8, 9, 10, 0), 33, 3), 1);
    assert_eq!(alu(r_type(0x07, 8, 9, 10, 0), 63, 0x8000_0000), 0xFFFF_FFFF);
}

#[test]
fn products_have_two_halves() {
    assert_eq!(hi_lo(0x18, 0xFFFF_FFFF, 2), (0xFFFF_FFFF, 0xFFFF_FFFE));
    assert_eq!(hi_lo(0x19, 0xFFFF_FFFF, 2), (1, 0xFFFF_FFFE));
    assert_eq!(hi_lo(0x19, 0xFFFF_FFFF, 0xFFFF_FFFF), (0xFFFF_FFFE, 1));
    assert_eq!(hi_lo(0x18, 0x8000_0000, 0x8000_0000), (0x4000_0000, 0));
}

#[test]
fn quotients_and_their_special_cases() {
    assert_eq!(hi_lo(0x1A, 7, 2), (1, 3));
    assert_eq!(hi_lo(0x1A, -7i32 as u32, 2), (-1i32 as u32, -3i32 as u32));
    assert_eq!(hi_lo(0x1A, 5, 0), (5, 0xFFFF_FFFF));
    assert_eq!(hi_lo(0x1A, -5i32 as u32, 0), (-5i32 as u32, 1));
    assert_eq!(hi_lo(0x1A, 0x8000_0000, 0xFFFF_FFFF), (0, 0x8000_0000));
    assert_eq!(hi_lo(0x1B, 0xFFFF_FFFF, 16), (15, 0x0FFF_FFFF));
    assert_eq!(hi_lo(0x1B, 9, 0), (9, 0xFFFF_FFFF));
}

#[test]
fn result_registers_can_be_moved() {
    let (mut cpu, mut bus) = machine(&[
        r_type(0x11, 8, 0, 0, 0),
        r_type(0x13, 9, 0, 0, 0),
        r_type(0x10, 0, 0, 10, 0),
        r_type(0x12, 0, 0, 11, 0),
    ]);
    cpu.regs.gpr[8] = 0x11;
    cpu.regs.gpr[9] = 0x22;
    for _ in 0..4 {
        cpu.step(&mut bus);
    }
    assert_eq!((cpu.regs.gpr[10], cpu.regs.gpr[11]), (0x11, 0x22));
}

#[test]
fn overflow_traps() {
    for code in [i_type(8, 8, 10, 1), r_type(0x20, 8, 9, 10, 0)] {
        let (mut cpu, mut bus) = machine(&[code]);
        cpu.regs.gpr[8] = 0x7FFF_FFFF;
        cpu.regs.gpr[9] = 1;
        cpu.regs.gpr[10] = 0x55;
        cpu.step(&mut bus);
        assert_eq!(cpu.regs.pc, 0x8000_0080);
        assert_eq!(cpu.regs.cp0[13], 12 << 2);
        assert_eq!(cpu.regs.cp0[14], BASE);
        assert_eq!(cpu.regs.gpr[10], 0x55);
    }
    let (mut cpu, mut bus) = machine(&[r_type(0x22, 8, 9, 10, 0)]);
    cpu.regs.gpr[8] = 0x8000_0000;
    cpu.regs.gpr[9] = 1;
    cpu.step(&mut bus);
    assert_eq!(cpu.regs.cp0[13], 12 << 2);
}

#[test]
fn loads_arrive_one_instruction_late() {
    // lw $t2, 0($t0); move $t3, $t2; move $t4, $t2.
    let (mut cpu, mut bus) = machine(&[
        i_type(0x23, 8, 10, 0),
        r_type(0x21, 10, 0, 11, 0),
        r_type(0x21, 10, 0, 12, 0),
    ]);
    cpu.regs.gpr[8] = 0x8000_4000;
    cpu.regs.gpr[10] = 1;
    bus.write32(0x8000_4000, 2);
    cpu.step(&mut bus);
    assert_eq!(cpu.regs.gpr[10], 1);
    cpu.step(&mut bus);
    assert_eq!((cpu.regs.gpr[10], cpu.regs.gpr[11]), (2, 1));
    cpu.step(&mut bus);
    assert_eq!(cpu.regs.gpr[12], 2);
}

#[test]
fn a_result_beats_a_load() {
    // lw $t2, 0($t0); addiu $t2, $0, 7; nop.
    let (mut cpu, mut bus) = machine(&[i_type(0x23, 8, 10, 0), i_type(9, 0, 10, 7), 0]);
    cpu.regs.gpr[8] = 0x8000_4000;
    bus.write32(0x8000_4000, 2);
    for _ in 0..3 {
        cpu.step(&mut bus);
    }
    assert_eq!(cpu.regs.gpr[10], 7);
}

#[test]
fn bytes_and_halfwords_are_extended() {
    let (mut cpu, mut bus) = machine(&[
        i_type(0x20, 8, 9, 0),
        i_type(0x24, 8, 10, 0),
        i_type(0x21, 8, 11, 2),
        i_type(0x25, 8, 12, 2),
        0,
    ]);
    cpu.regs.gpr[8] = 0x8000_4000;
    bus.write32(0x8000_4000, 0x8001_00FE);
    for _ in 0..5 {
        cpu.step(&mut bus);
    }
    assert_eq!(cpu.regs.gpr[9], 0xFFFF_FFFE);
    assert_eq!(cpu.regs.gpr[10], 0xFE);
    assert_eq!(cpu.regs.gpr[11], 0xFFFF_8001);
    assert_eq!(cpu.regs.gpr[12], 0x8001);
}

#[test]
fn stores_reach_memory() {
    let (mut cpu, mut bus) = machine(&[
        i_type(0x2B, 8, 9, 0),
        i_type(0x29, 8, 9, 4),
        i_type(0x28, 8, 9, 9),
    ]);
    cpu.regs.gpr[8] = 0x8000_4000;
    cpu.regs.gpr[9] = 0x1234_5678;
    for _ in 0..3 {
        cpu.step(&mut bus);
    }
    assert_eq!(bus.read32(0x8000_4000), 0x1234_5678);
    assert_eq!(bus.read32(0x8000_4004), 0x5678);
    assert_eq!(bus.read32(0x8000_4008), 0x7800);
}

#[test]
fn isolated_stores_are_dropped() {
    for op in [0x28u32, 0x29, 0x2A, 0x2B, 0x2E] {
        let (mut cpu, mut bus) = machine(&[i_type(op, 8, 9, 0)]);
        cpu.regs.cp0[12] = 0x0001_0000;
        cpu.regs.gpr[8] = 0x8000_4000;
        cpu.regs.gpr[9] = 0xFFFF_FFFF;
        cpu.step(&mut bus);
        assert_eq!(bus.read32(0x8000_4000), 0);
    }
}

#[test]
fn unaligned_words_are_loaded_in_two_parts() {
    for k in 0..4u32 {
        // lwl $t1, 3($t0); lwr $t1, 0($t0); nop.
        let (mut cpu, mut bus) = machine(&[i_type(0x22, 8, 9, 3), i_type(0x26, 8, 9, 0), 0]);
        for i in 0..8u32 {
            bus.write8(0x8000_4000 + i, 0x10 + i as u8);
        }
        cpu.regs.gpr[8] = 0x8000_4000 + k;
        cpu.regs.gpr[9] = 0xDEAD_BEEF;
        for _ in 0..3 {
            cpu.step(&mut bus);
        }
        assert_eq!(cpu.regs.gpr[9], 0x1312_1110 + 0x0101_0101 * k);
    }
}

#[test]
fn unaligned_words_are_stored_in_two_parts() {
    for k in 0..4u32 {
        let (mut cpu, mut bus) = machine(&[i_type(0x2A, 8, 9, 3), i_type(0x2E, 8, 9, 0)]);
        cpu.regs.gpr[8] = 0x8000_4000 + k;
        cpu.regs.gpr[9] = 0x4433_2211;
        cpu.step(&mut bus);
        cpu.step(&mut bus);
        for i in 0..8u32 {
            let expected = if i >= k && i < k + 4 { 0x11 * (i - k + 1) } else { 0 };
            assert_eq!(bus.read8(0x8000_4000 + i) as u32, expected);
        }
    }
}

#[test]
fn misaligned_accesses_trap() {
    for (op, offset, cause) in [
        (0x21u32, 1u32, 4u32),
        (0x25, 1, 4),
        (0x23, 2, 4),
        (0x32, 1, 4),
        (0x29, 3, 5),
        (0x2B, 1, 5),
        (0x3A, 2, 5),
    ] {
        let (mut cpu, mut bus) = machine(&[i_type(op, 8, 9, offset)]);
        cpu.regs.gpr[8] = 0x8000_4000;
        cpu.step(&mut bus);
        assert_eq!(cpu.regs.pc, 0x8000_0080);
        assert_eq!(cpu.regs.cp0[13], cause << 2);
        assert_eq!(cpu.regs.cp0[8], 0x8000_4000 + offset);
    }
}

#[test]
fn branches_have_a_delay_slot() {
    // beq $0, $0, +2; addiu $t0, $0, 1; addiu $t0, $0, 2; addiu $t1, $0, 3.
    let (mut cpu, mut bus) = machine(&[
        i_type(4, 0, 0, 2),
        i_type(9, 0, 8, 1),
        i_type(9, 0, 8, 2),
        i_type(9, 0, 9, 3),
    ]);
    cpu.step(&mut bus);
    assert_eq!(cpu.regs.pc, BASE + 4);
    assert!(cpu.next_is_delay_slot);
    cpu.step(&mut bus);
    assert_eq!(cpu.regs.pc, BASE + 12);
    cpu.step(&mut bus);
    assert_eq!((cpu.regs.gpr[8], cpu.regs.gpr[9]), (1, 3));
}

fn taken(code: u32, a: u32, b: u32) -> bool {
    let (mut cpu, mut bus) = machine(&[code, 0]);
    cpu.regs.gpr[8] = a;
    cpu.regs.gpr[9] = b;
    cpu.step(&mut bus);
    cpu.step(&mut bus);
    cpu.regs.pc != BASE + 8
}

#[test]
fn branch_conditions() {
    assert!(taken(i_type(4, 8, 9, 8), 5, 5) && !taken(i_type(4, 8, 9, 8), 5, 6));
    assert!(!taken(i_type(5, 8, 9, 8), 5, 5) && taken(i_type(5, 8, 9, 8), 5, 6));
    let minus = -1i32 as u32;
    assert!(taken(i_type(6, 8, 0, 8), 0, 0) && taken(i_type(6, 8, 0, 8), minus, 0));
    assert!(!taken(i_type(6, 8, 0, 8), 1, 0));
    assert!(taken(i_type(7, 8, 0, 8), 1, 0) && !taken(i_type(7, 8, 0, 8), 0, 0));
    assert!(taken(i_type(1, 8, 0, 8), minus, 0) && !taken(i_type(1, 8, 0, 8), 0, 0));
    assert!(taken(i_type(1, 8, 1, 8), 0, 0) && !taken(i_type(1, 8, 1, 8), minus, 0));
}

#[test]
fn jumps_link_and_stay_in_their_segment() {
    let (mut cpu, mut bus) = machine(&[(3 << 26) | (0x2000 >> 2), 0]);
    cpu.step(&mut bus);
    cpu.step(&mut bus);
    assert_eq!(cpu.regs.pc, 0x8000_2000);
    assert_eq!(cpu.regs.gpr[31], BASE + 4);
    let (mut cpu, mut bus) = machine(&[(2 << 26) | (0x3000 >> 2), 0]);
    cpu.step(&mut bus);
    cpu.step(&mut bus);
    assert_eq!(cpu.regs.pc, 0x8000_3000);
    // jalr $t9, $t0.
    let (mut cpu, mut bus) = machine(&[r_type(9, 8, 0, 25, 0), 0]);
    cpu.regs.gpr[8] = 0x8000_5000;
    cpu.step(&mut bus);
    cpu.step(&mut bus);
    assert_eq!((cpu.regs.pc, cpu.regs.gpr[25]), (0x8000_5000, BASE + 4));
    // bltzal links even if it is not taken.
    let (mut cpu, mut bus) = machine(&[i_type(1, 8, 0x10, 8)]);
    cpu.step(&mut bus);
    assert_eq!(cpu.regs.gpr[31], BASE + 4);
    assert!(!cpu.next_is_delay_slot);
}

#[test]
fn exceptions_push_and_returns_pop() {
    // syscall, and at the handler a return from exception.
    let (mut cpu, mut bus) = machine(&[r_type(0x0C, 0, 0, 0, 0)]);
    bus.write32(0x8000_0080, (0x10 << 26) | (0x10 << 21) | 0x10);
    cpu.regs.cp0[12] = 0x0000_0003;
    cpu.step(&mut bus);
    assert_eq!(cpu.regs.pc, 0x8000_0080);
    assert_eq!(cpu.regs.cp0[12], 0x0000_000C);
    assert_eq!(cpu.regs.cp0[13], 8 << 2);
    assert_eq!(cpu.regs.cp0[14], BASE);
    cpu.step(&mut bus);
    assert_eq!(cpu.regs.cp0[12], 0x0000_0003);
    let (mut cpu, mut bus) = machine(&[r_type(0x0D, 0, 0, 0, 0)]);
    cpu.regs.cp0[12] = 0x0040_0000;
    cpu.step(&mut bus);
    assert_eq!(cpu.regs.pc, 0xBFC0_0180);
    assert_eq!(cpu.regs.cp0[13], 9 << 2);
}

#[test]
fn an_exception_in_a_delay_slot_names_the_branch() {
    let (mut cpu, mut bus) = machine(&[i_type(4, 0, 0, 8), r_type(0x0C, 0, 0, 0, 0)]);
    cpu.step(&mut bus);
    cpu.step(&mut bus);
    assert_eq!(cpu.regs.cp0[13], 0x8000_0020);
    assert_eq!(cpu.regs.cp0[14], BASE);
}

#[test]
fn exceptions_can_be_entered_directly() {
    let (mut cpu, mut bus) = machine(&[]);
    exception_raw(&mut cpu, 0x400, false);
    assert_eq!((cpu.regs.cp0[13], cpu.regs.cp0[14]), (0x400, BASE));
    let (mut cpu, _) = machine(&[]);
    exception(&mut cpu, &mut bus, Exception::ReservedInstruction);
    assert_eq!((cpu.regs.cp0[13], cpu.regs.cp0[14]), (10 << 2, BASE - 4));
    assert_eq!(Exception::CoprocessorUnusable.number(), 11);
    assert_eq!(Exception::DataBusError.number(), 7);
}

#[test]
fn coprocessor_registers_are_moved() {
    // mtc0 $t0, BDA; mfc0 $t1, BDA; nop.
    let (mut cpu, mut bus) = machine(&[
        (0x10 << 26) | (4 << 21) | (8 << 16) | (5 << 11),
        (0x10 << 26) | (9 << 16) | (5 << 11),
        0,
    ]);
    cpu.regs.gpr[8] = 0x1234;
    for _ in 0..3 {
        cpu.step(&mut bus);
    }
    assert_eq!(cpu.regs.gpr[9], 0x1234);
    // mtc2, ctc2, mfc2, cfc2.
    let (mut cpu, mut bus) = machine(&[
        (0x12 << 26) | (4 << 21) | (8 << 16) | (3 << 11),
        (0x12 << 26) | (6 << 21) | (9 << 16) | (3 << 11),
        (0x12 << 26) | (10 << 16) | (3 << 11),
        (0x12 << 26) | (2 << 21) | (11 << 16) | (3 << 11),
        0,
    ]);
    cpu.regs.gpr[8] = 0x55;
    cpu.regs.gpr[9] = 0x66;
    for _ in 0..5 {
        cpu.step(&mut bus);
    }
    assert_eq!((cpu.regs.gpr[10], cpu.regs.gpr[11]), (0x55, 0x66));
}

#[test]
fn coprocessor_words_are_loaded_and_stored() {
    let (mut cpu, mut bus) = machine(&[i_type(0x32, 8, 7, 0), i_type(0x3A, 8, 7, 4)]);
    cpu.regs.gpr[8] = 0x8000_4000;
    bus.write32(0x8000_4000, 0xABCD);
    cpu.step(&mut bus);
    cpu.step(&mut bus);
    assert_eq!(cpu.regs.cp2d[7], 0xABCD);
    assert_eq!(bus.read32(0x8000_4004), 0xABCD);
}

#[test]
fn software_interrupts_are_taken() {
    // mtc0 $t0, CAUSE: only two bits can be written.
    let (mut cpu, mut bus) = machine(&[(0x10 << 26) | (4 << 21) | (8 << 16) | (13 << 11)]);
    cpu.regs.cp0[12] = 0x0000_0101;
    cpu.regs.gpr[8] = 0xFFFF_FFFF;
    cpu.step(&mut bus);
    assert_eq!(cpu.regs.pc, 0x8000_0080);
    assert_eq!(cpu.regs.cp0[13], 0x300);
    assert_eq!(cpu.regs.cp0[14], BASE + 4);
    let (mut cpu, mut bus) = machine(&[]);
    cpu.regs.cp0[13] = 0x100;
    cpu.regs.cp0[12] = 0x100;
    cpu.test_sw_ints(&mut bus);
    assert_eq!(cpu.regs.pc, BASE);
}

#[test]
fn hardware_interrupts_are_taken_after_branches() {
    let (mut cpu, mut bus) = machine(&[0, (2 << 26) | ((BASE & 0xFFF_FFFF) >> 2), 0]);
    cpu.regs.cp0[12] = 0x401;
    bus.write32(0x1F80_1074, 1);
    bus.set_irq(0);
    cpu.step(&mut bus);
    cpu.step(&mut bus);
    assert_eq!(cpu.regs.pc, BASE + 8);
    cpu.step(&mut bus);
    assert_eq!(cpu.regs.pc, 0x8000_0080);
    assert_eq!(cpu.regs.cp0[13], 0x400);
    assert_eq!(cpu.regs.cp0[14], BASE);
}

#[test]
fn masked_interrupts_are_not_taken() {
    for (mask, status) in [(0u32, 0x401u32), (1, 0x400), (1, 0x001)] {
        let (mut cpu, mut bus) = machine(&[(2 << 26) | ((BASE & 0xFFF_FFFF) >> 2), 0]);
        cpu.regs.cp0[12] = status;
        bus.write32(0x1F80_1074, mask);
        bus.set_irq(0);
        cpu.step(&mut bus);
        cpu.step(&mut bus);
        assert_eq!(cpu.regs.pc, BASE);
    }
}

#[test]
fn scheduled_events_come_with_branches() {
    let (mut cpu, mut bus) = machine(&[(2 << 26) | ((BASE & 0xFFF_FFFF) >> 2), 0]);
    bus.write8(0x1F80_1801, 1);
    let due = bus.scheduler.int_targets[2];
    while cpu.regs.cycle < due {
        assert_eq!(bus.read_istat() & 4, 0);
        cpu.step(&mut bus);
    }
    assert_eq!(bus.read_istat() & 4, 4);
}

fn call(pc: u32, function: u32, a0: u32, a1: u32, a2: u32) -> Vec<u8> {
    let (mut cpu, mut bus) = machine(&[r_type(8, 8, 0, 0, 0), 0]);
    for (i, ch) in b"hi\x80!\0no".iter().enumerate() {
        bus.write8(0x8000_6000 + i as u32, *ch);
    }
    cpu.regs.gpr[8] = pc;
    cpu.regs.gpr[9] = function;
    cpu.regs.gpr[4] = a0;
    cpu.regs.gpr[5] = a1;
    cpu.regs.gpr[6] = a2;
    cpu.step(&mut bus);
    cpu.step(&mut bus);
    bus.console
}

#[test]
fn programs_print_through_the_bios() {
    for (pc, write, putc, putchar, puts) in
        [(0xA0, 0x03, 0x09, 0x3C, 0x3E), (0xB0, 0x35, 0x3B, 0x3D, 0x3F)]
    {
        assert_eq!(call(pc, putc, 0x41, 0, 0), b"A".to_vec());
        assert_eq!(call(pc, putchar, 0x42, 0, 0), b"B".to_vec());
        assert_eq!(call(pc, putchar, 0x80, 0, 0), b"".to_vec());
        assert_eq!(call(pc, putchar, 0, 0, 0), b"".to_vec());
        assert_eq!(call(pc, puts, 0x8000_6000, 0, 0), b"hi!".to_vec());
        assert_eq!(call(pc, write, 1, 0x8000_6000, 7), b"hi!no".to_vec());
        assert_eq!(call(pc, write, 2, 0x8000_6000, 7), b"".to_vec());
        assert_eq!(call(pc, 0x77, 0x41, 0, 0), b"".to_vec());
    }
    assert_eq!(call(0xC0, 0x09, 0x41, 0, 0), b"".to_vec());
}

#[test]
fn the_instruction_cache_keeps_words_by_line() {
    let mut cpu = Cpu::new();
    cpu.write_icache(0x8012_3458, 0x1111);
    cpu.write_icache(0x8012_3460, 0x2222);
    assert_eq!(cpu.icache_addr[0x458 / 4], 0x0012_3458);
    assert_eq!(cpu.icache_code[0x458 / 4], 0x1111);
    cpu.invalidate_icache_line(0x45C);
    for i in 0x450 / 4..0x460 / 4 {
        assert_eq!(cpu.icache_addr[i], 0xFFFF_FFFF);
    }
    assert_eq!(cpu.icache_addr[0x460 / 4], 0x0012_3460);
    // Instructions come from the bus all the same.
    let mut bus = Bus::new();
    bus.write32(0x458, 0x3333);
    assert_eq!(cpu.read_icache(0x8000_0458, &mut bus), 0x3333);
}

#[test]
fn unknown_instructions_do_nothing() {
    for code in [i_type(0x3F, 0, 0, 0), r_type(0x3F, 0, 0, 0, 0), (0x10 << 26) | (0x1F << 21)] {
        let (mut cpu, mut bus) = machine(&[code]);
        cpu.step(&mut bus);
        assert_eq!(cpu.regs.pc, BASE + 4);
        assert_eq!(cpu.regs.gpr, [0; 32]);
    }
    let (mut cpu, mut bus) = machine(&[]);
    cpu.execute(&mut bus, (0x12 << 26) | (0x10 << 21) | 0x30);
    assert_eq!(cpu.regs.cp2d, [0; 32]);
}

#[test]
fn a_trace_is_shown_once_oldest_first() {
    let mut ring = TraceRing::new();
    ring.entries[2] = TraceEntry { pc: 0x10, instr: 1, ..TraceEntry::default() };
    ring.entries[5] = TraceEntry { pc: 0x20, instr: 0, ..TraceEntry::default() };
    ring.pos = 4;
    let shown = dump_trace_ring(&mut ring).unwrap();
    assert_eq!(shown.iter().map(|e| e.pc).collect::<Vec<u32>>(), vec![0x20, 0x10]);
    assert!(dump_trace_ring(&mut ring).is_none());
}

#[test]
fn what_is_stored_is_loaded_back() {
    // sw $t1, 8($t0); lw $t2, 8($t0); nop.
    let (mut cpu, mut bus) = machine(&[i_type(0x2B, 8, 9, 8), i_type(0x23, 8, 10, 8), 0]);
    cpu.regs.gpr[8] = 0x1F80_0010;
    cpu.regs.gpr[9] = 0xFEED_BEEF;
    for _ in 0..3 {
        cpu.step(&mut bus);
    }
    assert_eq!(cpu.regs.gpr[10], 0xFEED_BEEF);
    assert_eq!(bus.read32(0x1F80_0018), 0xFEED_BEEF);
}
