use psoxide::bus::boot::{find_file_in_dir, parse_boot_file, parse_boot_stack, plan_configured};
use psoxide::bus::Bus;
use psoxide::cpu::Cpu;

fn put32(image: &mut [u8], at: usize, v: u32) {
    image[at..at + 4].copy_from_slice(&v.to_le_bytes());
}

/// Where the user data of a sector starts.
fn at(sector: usize) -> usize {
    sector * 2352 + 24
}

fn record(image: &mut [u8], pos: usize, lba: u32, size: u32, name: &str) -> usize {
    let len = 33 + name.len() + (1 - name.len() % 2);
    image[pos] = len as u8;
    put32(image, pos + 2, lba);
    put32(image, pos + 10, size);
    image[pos + 32] = name.len() as u8;
    image[pos + 33..pos + 33 + name.len()].copy_from_slice(name.as_bytes());
    pos + len
}

/// A disc with a root directory in sector 20, a configuration in 21, and an
/// executable of two sectors from 22 on.
fn game(cnf: &str) -> Vec<u8> {
    let mut image = vec![0u8; 2352 * 30];
    let pvd = at(16);
    image[pvd] = 1;
    image[pvd + 1..pvd + 6].copy_from_slice(b"CD001");
    put32(&mut image, pvd + 158, 20);
    put32(&mut image, pvd + 166, 2048);
    let mut pos = at(20);
    pos = record(&mut image, pos, 20, 2048, "\u{0}");
    pos = record(&mut image, pos, 21, cnf.len() as u32, "System.cnf;1");
    record(&mut image, pos, 22, 2048 * 3, "SLUS_007.35;1");
    image[at(21)..at(21) + cnf.len()].copy_from_slice(cnf.as_bytes());
    let h = at(22);
    image[h..h + 8].copy_from_slice(b"PS-X EXE");
    put32(&mut image, h + 16, 0x8001_0008);
    put32(&mut image, h + 20, 0x8001_9000);
    put32(&mut image, h + 24, 0x8001_0000);
    put32(&mut image, h + 28, 2050);
    for i in 0..2048 {
        image[at(23) + i] = (i % 253) as u8;
        image[at(24) + i] = 0xEE;
    }
    image
}

const CNF: &str = "BOOT = cdrom:\\SLUS_007.35;1\r\nTCB = 4\r\nSTACK = 801FFFF0\r\n";

fn bus_with(image: Vec<u8>) -> Bus {
    let mut b = Bus::new();
    b.load_disc(image);
    b
}

#[test]
fn a_game_is_found_and_loaded() {
    let mut b = bus_with(game(CNF));
    b.set_irq(0);
    b.write8(0x8001_0000 + 2050, 0x77);
    assert_eq!(b.fast_boot(), Some((0x8001_0008, 0x8001_9000, 0x801F_FFF0)));
    for i in [0u32, 1, 252, 253, 2047] {
        assert_eq!(b.read8(0x8001_0000 + i), (i % 253) as u8);
    }
    assert_eq!(b.read8(0x8001_0000 + 2048), 0xEE);
    assert_eq!(b.read8(0x8001_0000 + 2049), 0xEE);
    assert_eq!(b.read8(0x8001_0000 + 2050), 0x77);
    assert_eq!(b.read_istat(), 0);
}

#[test]
fn the_header_may_give_a_stack_and_a_cleared_area() {
    let mut image = game(CNF);
    let h = at(22);
    put32(&mut image, h + 40, 0x8002_0000);
    put32(&mut image, h + 44, 8);
    put32(&mut image, h + 48, 0x801F_0000);
    put32(&mut image, h + 52, 0x100);
    let mut b = bus_with(image);
    b.write32(0x8002_0004, 0xFFFF_FFFF);
    b.write32(0x8002_0008, 0xFFFF_FFFF);
    assert_eq!(b.fast_boot(), Some((0x8001_0008, 0x8001_9000, 0x801F_0100)));
    assert_eq!(b.read32(0x8002_0004), 0);
    assert_eq!(b.read32(0x8002_0008), 0xFFFF_FFFF);
}

#[test]
fn configurations_are_read() {
    assert_eq!(parse_boot_file(CNF), Some(String::from("SLUS_007.35")));
    assert_eq!(parse_boot_file("BOOT=cdrom:main.exe;1"), Some(String::from("MAIN.EXE")));
    assert_eq!(parse_boot_file("BOOT = a.exe"), Some(String::from("A.EXE")));
    assert_eq!(parse_boot_file("BOOT = straße"), Some(String::from("STRASSE")));
    assert_eq!(parse_boot_file(" BOOT = a.exe"), None);
    assert_eq!(parse_boot_file("BOOT a.exe"), None);
    assert_eq!(parse_boot_stack(CNF), 0x801F_FFF0);
    assert_eq!(parse_boot_stack("STACK=0x801ff000"), 0x801F_F000);
    assert_eq!(parse_boot_stack("STACK=nonsense"), 0x801F_FF00);
    assert_eq!(parse_boot_stack(""), 0x801F_FF00);
}

#[test]
fn files_are_found_whatever_their_case() {
    let b = bus_with(game(CNF));
    let size = CNF.len() as u32;
    assert_eq!(find_file_in_dir(&b.cdrom, 20, 2048, "system.cnf"), Some((21, size)));
    assert_eq!(find_file_in_dir(&b.cdrom, 20, 2048, "OTHER"), None);
    assert_eq!(find_file_in_dir(&b.cdrom, 20, 0, "SYSTEM.CNF"), None);
    assert_eq!(find_file_in_dir(&b.cdrom, 999, 2048, "SYSTEM.CNF"), None);
}

#[test]
fn names_that_are_not_text_are_passed_over() {
    let mut image = game(CNF);
    let pos = at(20);
    // The first record's name is not UTF-8.
    image[pos + 33] = 0xFF;
    let b = bus_with(image);
    assert!(find_file_in_dir(&b.cdrom, 20, 2048, "SYSTEM.CNF").is_some());
}

#[test]
fn configurations_that_are_not_text_are_read_as_far_as_they_are() {
    let mut image = game(CNF);
    image[at(21) + CNF.len() - 1] = 0xFF;
    let mut b = bus_with(image);
    assert!(b.fast_boot().is_some());
}

#[test]
fn discs_without_a_game_are_refused() {
    let mut b = Bus::new();
    assert_eq!(b.fast_boot(), None);
    let mut b = bus_with(vec![0u8; 2352 * 30]);
    assert_eq!(b.fast_boot(), None);
    let mut b = bus_with(vec![0u8; 2352]);
    assert_eq!(b.fast_boot(), None);
    let mut b = bus_with(game("STACK=1\n"));
    assert_eq!(b.fast_boot(), None);
    let mut b = bus_with(game("BOOT = cdrom:\\OTHER.EXE;1\n"));
    assert_eq!(b.fast_boot(), None);
    let mut image = game(CNF);
    image[at(22)] = b'X';
    let mut b = bus_with(image);
    assert_eq!(b.fast_boot(), None);
}

#[test]
fn damaged_discs_are_refused() {
    // A short record at the very end of the directory's sector.
    let mut image = game(CNF);
    let first = at(20);
    image[first] = 255;
    for k in 1..8 {
        image[first + 255 * k] = 255;
    }
    image[first + 255 * 8] = 8;
    let mut b = bus_with(image);
    assert_eq!(b.fast_boot(), None);
    // A program that runs over the end of memory.
    let mut image = game(CNF);
    put32(&mut image, at(22) + 24, 0x801F_FC00);
    let mut b = bus_with(image);
    assert_eq!(b.fast_boot(), None);
    assert_eq!(b.read8(0x801F_FC01), 0);
}

#[test]
fn a_configuration_leads_to_its_executable() {
    let b = bus_with(game(CNF));
    let image = plan_configured(&b.cdrom, 20, 2048, "BOOT=slus_007.35\nSTACK=0x10").unwrap();
    assert_eq!((image.lba, image.entry, image.dest), (22, 0x8001_0008, 0x8001_0000));
    assert_eq!((image.size, image.sp), (2050, 0x10));
    assert!(plan_configured(&b.cdrom, 20, 2048, "BOOT=other").is_none());
}

#[test]
fn the_game_replaces_the_shell_once() {
    let mut b = bus_with(game(CNF));
    let mut cpu = Cpu::new();
    cpu.reset();
    cpu.fast_boot = true;
    // The BIOS jumps to its shell: jr $t0, then a nop in the delay slot.
    cpu.regs.pc = 0x8000_1000;
    cpu.regs.gpr[8] = 0x8003_0000;
    b.write32(0x8000_1000, (8 << 21) | 0x08);
    cpu.step(&mut b);
    assert_eq!(cpu.regs.pc, 0x8000_1004);
    cpu.step(&mut b);
    assert_eq!(cpu.regs.pc, 0x8001_0008);
    assert_eq!(cpu.regs.gpr[28], 0x8001_9000);
    assert_eq!(cpu.regs.gpr[29], 0x801F_FFF0);
    assert_eq!(cpu.regs.gpr[30], 0x801F_FFF0);
    assert_eq!(cpu.regs.cp0[12] & 0x4000_0000, 0x4000_0000);
    assert!(!cpu.fast_boot);
    // The next time the shell is left alone.
    cpu.regs.pc = 0x8000_1000;
    cpu.step(&mut b);
    cpu.step(&mut b);
    assert_eq!(cpu.regs.pc, 0x8003_0000);
}
