use psoxide::bus::dma::{
    dma_cdrom, dma_gpu, dma_mdec_in, dma_mdec_out, dma_otc, dma_spu, DmaController,
};
use psoxide::bus::{word_fits, BiosSizeError, Bus};

#[test]
fn memory_gives_back_what_was_written() {
    let mut b = Bus::new();
    b.write32(0x8000_1000, 0x1234_5678);
    assert_eq!(b.read32(0x8000_1000), 0x1234_5678);
    assert_eq!(b.read16(0x8000_1002), 0x1234);
    assert_eq!(b.read8(0x8000_1001), 0x56);
    b.write16(0x8000_1000, 0xBEEF);
    b.write8(0x8000_1003, 0xAA);
    assert_eq!(b.read32(0x8000_1000), 0xAA34_BEEF);
    b.write32(0x1F80_03FC, 0xCAFE_F00D);
    assert_eq!(b.read32(0x9F80_03FC), 0xCAFE_F00D);
    assert_eq!(b.read16(0x1F80_03FE), 0xCAFE);
}

#[test]
fn mirrors_share_their_memory() {
    let mut b = Bus::new();
    b.write32(0x0000_2000, 7);
    assert_eq!(b.read32(0x8000_2000), 7);
    assert_eq!(b.read32(0xA000_2000), 7);
    b.write8(0xA000_2000, 9);
    assert_eq!(b.read8(0x0000_2000), 9);
}

#[test]
fn unmapped_addresses_read_as_ones_or_zero() {
    let mut b = Bus::new();
    assert_eq!(b.read8(0x1F00_0000), 0xFF);
    assert_eq!(b.read16(0x1F00_0000), 0xFFFF);
    assert_eq!(b.read32(0x1F00_0000), 0xFFFF_FFFF);
    assert_eq!(b.read8(0x0020_0000), 0xFF);
    assert_eq!(b.read16(0x0020_0000), 0xFFFF);
    assert_eq!(b.read32(0x0020_0000), 0);
    b.write32(0xFFFE_0130, 5);
    assert_eq!(b.read32(0xFFFE_0130), 0);
}

#[test]
fn a_bios_has_exactly_one_size() {
    let mut b = Bus::new();
    assert_eq!(b.load_bios(&[1, 2, 3]), Err(BiosSizeError { size: 3 }));
    let mut image = vec![0u8; 0x8_0000];
    image[0] = 0x11;
    image[0x7_FFFF] = 0x22;
    assert_eq!(b.load_bios(&image), Ok(()));
    assert_eq!(b.read32(0xBFC0_0000), 0x11);
    assert_eq!(b.read8(0x9FC7_FFFF), 0x22);
    assert_eq!(b.read16(0xBFC7_FFFE), 0x2200);
    // It is read-only.
    b.write32(0xBFC0_0000, 0xFFFF_FFFF);
    b.write16(0xBFC0_0000, 0xFFFF);
    b.write8(0xBFC0_0000, 0xFF);
    assert_eq!(b.read32(0xBFC0_0000), 0x11);
}

#[test]
fn interrupts_are_acknowledged_by_zeroes() {
    let mut b = Bus::new();
    b.set_irq(0);
    b.set_irq(2);
    b.set_irq(7);
    assert_eq!(b.read_istat(), 0x85);
    b.write32(0x1F80_1070, !0x04);
    assert_eq!(b.read32(0x1F80_1070), 0x81);
    b.write16(0x1F80_1070, 0x0001);
    assert_eq!(b.read16(0x1F80_1070), 0x0001);
    b.write16(0x1F80_1074, 0x00FF);
    assert_eq!(b.read_imask(), 0xFF);
    b.write32(0x1F80_1074, 0x0F);
    assert_eq!(b.read16(0x1F80_1074), 0x0F);
}

#[test]
fn a_vertical_blank_shows_in_two_registers() {
    let mut b = Bus::new();
    b.timers.pending_irqs = 0x11;
    let before = b.read32(0x1F80_1814);
    b.drain_timer_irqs();
    assert_eq!(b.read_istat(), 0x11);
    assert_eq!(b.read32(0x1F80_1814), before ^ 0x8000_0000);
    assert_eq!(b.timers.pending_irqs, 0);
    b.drain_timer_irqs();
    assert_eq!(b.read32(0x1F80_1814), before ^ 0x8000_0000);
}

#[test]
fn counters_are_on_the_bus() {
    let mut b = Bus::new();
    b.last_cycle = 1000;
    b.write16(0x1F80_1114, 0x0000);
    b.write32(0x1F80_1118, 0x1_2345);
    assert_eq!(b.read16(0x1F80_1118), 0x2345);
    b.write32(0x1F80_1110, 0x40);
    b.last_cycle = 1100;
    assert_eq!(b.read32(0x1F80_1110), 0x40 + 100);
    assert_eq!(b.read16(0x1F80_1110), 0x40 + 100);
}

#[test]
fn the_serial_port_is_on_the_bus() {
    let mut b = Bus::new();
    b.write16(0x1F80_104E, 0x88);
    b.write16(0x1F80_1048, 0x0D);
    b.write16(0x1F80_104A, 0x1003);
    b.write8(0x1F80_1040, 0x01);
    // The acknowledgement is scheduled.
    assert_eq!(b.scheduler.int_targets[0], 0x88 * 8);
    assert_eq!(b.read8(0x1F80_1040), 0xFF);
    b.write8(0x1F80_1040, 0x42);
    b.write32(0x1F80_1040, 0);
    assert_eq!(b.read16(0x1F80_1040), 0x5A41);
    assert_eq!(b.read16(0x1F80_1044), 5);
    assert_eq!(b.read32(0x1F80_1044), 5);
    assert_eq!(b.read16(0x1F80_1048), 0x0D);
    assert_eq!(b.read16(0x1F80_104A), 0x1003);
    assert_eq!(b.read16(0x1F80_104E), 0x88);
    // A reset withdraws what is scheduled.
    b.write16(0x1F80_104A, 0x0040);
    assert_eq!(b.scheduler.int_targets[0], u64::MAX);
}

#[test]
fn a_serial_interrupt_reaches_the_status() {
    let mut b = Bus::new();
    b.handle_fired_interrupts(1);
    assert_eq!(b.read_istat(), 0x80);
    assert_eq!(b.sio.status & 0x200, 0x200);
}

#[test]
fn disc_commands_are_scheduled_and_answered() {
    let mut b = Bus::new();
    b.last_cycle = 500;
    b.write8(0x1F80_1801, 1);
    assert_eq!(b.scheduler.int_targets[2], 500 + 0x800);
    b.handle_fired_interrupts(1 << 2);
    assert_eq!(b.read_istat(), 0x04);
    assert_eq!(b.read8(0x1F80_1801), 0x02);
    assert!(!b.cdrom_has_data());
}

#[test]
fn lid_events_are_scheduled_in_turn() {
    let mut b = Bus::new();
    b.write8(0x1F80_1801, 28);
    b.handle_fired_interrupts(1 << 2);
    assert_eq!(b.scheduler.int_targets[13], 20480);
    b.handle_fired_interrupts(1 << 13);
    assert_eq!(b.scheduler.int_targets[13], 451_584 * 150);
}

#[test]
fn sound_registers_are_on_the_bus() {
    let mut b = Bus::new();
    b.write32(0x1F80_1C00, 0x1234_5678);
    assert_eq!(b.read16(0x1F80_1C00), 0x5678);
    assert_eq!(b.read32(0x1F80_1C00), 0x1234_5678);
    b.write16(0x1F80_1DAA, 0x003F);
    assert_eq!(b.read16(0x1F80_1DAE), 0x003F);
}

#[test]
fn the_dma_interrupt_register_has_a_master_flag() {
    let mut b = Bus::new();
    b.write32(0x1F80_10F4, 0x0084_0000);
    assert_eq!(b.read32(0x1F80_10F4), 0x0084_0000);
    b.dma_gpu_interrupt();
    assert_eq!(b.read32(0x1F80_10F4), 0x8484_0000);
    assert_eq!(b.read_istat(), 0x08);
    // Acknowledged by writing one.
    b.write32(0x1F80_10F4, 0x0484_0000);
    assert_eq!(b.read32(0x1F80_10F4), 0x0084_0000);
    // A channel that is not enabled is not flagged.
    b.dma_otc_interrupt();
    assert_eq!(b.read32(0x1F80_10F4), 0x0084_0000);
}

#[test]
fn an_ordering_table_is_a_chain() {
    let mut b = Bus::new();
    dma_otc(&mut b, 0x1000, 4, 0);
    assert_eq!(b.read32(0x1000), 0xFFC);
    assert_eq!(b.read32(0xFFC), 0xFF8);
    assert_eq!(b.read32(0xFF8), 0xFF4);
    assert_eq!(b.read32(0xFF4), 0x00FF_FFFF);
    assert_eq!(b.read32(0xFF0), 0);
    // It wraps at the start of memory.
    dma_otc(&mut b, 0x0, 2, 0);
    assert_eq!(b.read32(0), 0x1F_FFFC);
    assert_eq!(b.read32(0x1F_FFFC), 0x00FF_FFFF);
}

#[test]
fn an_empty_table_draws_nothing() {
    let mut b = Bus::new();
    dma_otc(&mut b, 0x1000, 64, 0);
    dma_gpu(&mut b, 0x1000, 0, 0x0100_0401);
    assert_eq!(b.gpu.gp0_count(), 0);
}

#[test]
fn a_list_of_commands_is_followed() {
    let mut b = Bus::new();
    b.write32(0x100, (2 << 24) | 0x200);
    b.write32(0x104, 0xE300_0003);
    b.write32(0x108, 0xE400_0009);
    b.write32(0x200, (1 << 24) | 0x00FF_FFFF);
    b.write32(0x204, 0xE500_0001);
    dma_gpu(&mut b, 0x100, 0, 0x0100_0401);
    assert_eq!(b.gpu.gp0_count(), 3);
    assert_eq!(b.gpu.command_processor.draw_area_left, 3);
    assert_eq!(b.gpu.command_processor.draw_area_right, 9);
    assert_eq!(b.gpu.command_processor.draw_offset_x, 1);
    // The other direction does nothing at all.
    dma_gpu(&mut b, 0x100, 0, 0x0100_0400);
    assert_eq!(b.gpu.gp0_count(), 3);
}

#[test]
fn blocks_go_to_the_graphics_processor_and_back() {
    let mut b = Bus::new();
    for (i, w) in [0xA000_0000u32, 0, (1 << 16) | 4, 0x0002_0001, 0x0004_0003].iter().enumerate() {
        b.write32(0x400 + 4 * i as u32, *w);
    }
    dma_gpu(&mut b, 0x400, (1 << 16) | 5, 0x0100_0201);
    assert_eq!(b.gpu.vram.get_pixel(3, 0), 4);
    b.write32(0x1F80_1810, 0xC000_0000);
    b.write32(0x1F80_1810, 0);
    b.write32(0x1F80_1810, (1 << 16) | 4);
    dma_gpu(&mut b, 0x800, (2 << 16) | 1, 0x0100_0200);
    assert_eq!(b.read32(0x800), 0x0002_0001);
    assert_eq!(b.read32(0x804), 0x0004_0003);
    assert_eq!(b.read32(0x808), 0);
}

#[test]
fn channels_run_when_triggered_and_enabled() {
    let mut b = Bus::new();
    b.write32(0x1F80_10E0, 0x1000);
    b.write32(0x1F80_10E4, 4);
    b.write32(0x1F80_10E8, 0x1100_0002);
    // Not enabled: nothing has happened.
    assert_eq!(b.read32(0x1000), 0);
    assert_eq!(b.read32(0x1F80_10E8), 0x1100_0002);
    b.write32(0x1F80_10F0, 0x0800_0000);
    b.write32(0x1F80_10E8, 0x1000_0002);
    assert_eq!(b.read32(0x1000), 0);
    b.write32(0x1F80_10E8, 0x1100_0002);
    assert_eq!(b.read32(0x1000), 0xFFC);
    assert_eq!(b.read32(0x1F80_10E8), 0x1000_0002);
}

#[test]
fn motion_decoder_channels_finish_at_once() {
    let mut b = Bus::new();
    b.write32(0x1F80_10F4, 0x0083_0000);
    dma_mdec_in(&mut b, 0, 0, 0);
    dma_mdec_out(&mut b, 0, 0, 0);
    assert_eq!(b.read32(0x1F80_10F4) & 0x7F00_0000, 0x0300_0000);
    let _controller = DmaController::new();
}

#[test]
fn sound_blocks_go_both_ways() {
    let mut b = Bus::new();
    for i in 0..8u32 {
        b.write32(0x600 + 4 * i, 0x0001_0000 * (2 * i + 1) + 2 * i);
    }
    b.write16(0x1F80_1DA6, 0x0200);
    dma_spu(&mut b, 0x600, (2 << 16) | 4, 0x0100_0201);
    // The registers have moved on: eight words.
    assert_eq!(b.read32(0x1F80_10C0), 0x620);
    assert_eq!(b.read32(0x1F80_10C4), 4);
    b.write16(0x1F80_1DA6, 0x0200);
    dma_spu(&mut b, 0x700, (2 << 16) | 4, 0x0100_0200);
    for i in 0..8u32 {
        assert_eq!(b.read32(0x700 + 4 * i), 0x0001_0000 * (2 * i + 1) + 2 * i);
    }
}

#[test]
fn a_sector_goes_from_disc_to_memory() {
    let mut b = Bus::new();
    let mut image = vec![0u8; 2352 * 3];
    for i in 0..2048 {
        image[2352 * 2 + 24 + i] = (i % 251) as u8;
    }
    b.load_disc(image);
    for p in [0x00u8, 0x00, 0x02] {
        b.write8(0x1F80_1802, p);
    }
    for cmd in [2u8, 6] {
        b.write8(0x1F80_1801, cmd);
        b.handle_fired_interrupts(1 << 2);
        b.write8(0x1F80_1800, 1);
        b.write8(0x1F80_1803, 0x1F);
        b.write8(0x1F80_1800, 0);
    }
    b.handle_fired_interrupts(1 << 3);
    assert_eq!(b.read_istat() & 4, 4);
    assert!(b.cdrom_has_data());
    // Nothing moves before the host asks for the sector.
    dma_cdrom(&mut b, 0x8000, 0x200, 0x1100_0000);
    assert_eq!(b.read32(0x8004), 0);
    b.write8(0x1F80_1803, 0x80);
    dma_cdrom(&mut b, 0x8000, 0x200, 0x1100_0000);
    for i in [0u32, 1, 250, 251, 2047] {
        assert_eq!(b.read8(0x8000 + i), (i % 251) as u8);
    }
    assert_eq!(b.read8(0x8000 + 2048), 0);
    assert!(!b.cdrom_has_data());
}

#[test]
fn other_hardware_registers_store_what_is_written() {
    let mut b = Bus::new();
    b.write32(0x1F80_1000, 0x1F00_0000);
    b.write32(0x1F80_1060, 0x0B88);
    b.write8(0x1F80_2041, 0x0F);
    assert_eq!(b.read32(0x1F80_1000), 0x1F00_0000);
    assert_eq!(b.read16(0x1F80_1060), 0x0B88);
    assert_eq!(b.read8(0x1F80_2041), 0x0F);
}

#[test]
fn printed_characters_are_kept() {
    let mut b = Bus::new();
    b.print(b'o');
    b.print(b'k');
    assert_eq!(b.console, b"ok".to_vec());
}

#[test]
fn words_must_not_run_over_the_end_of_a_memory() {
    assert!(word_fits(0x801F_FFFC) && !word_fits(0x801F_FFFD));
    assert!(word_fits(0x1F80_03FC) && !word_fits(0x1F80_03FE));
    assert!(word_fits(0xBFC7_FFFC) && !word_fits(0xBFC7_FFFF));
    assert!(word_fits(0x0020_0001) && word_fits(0x1F80_1071));
}

#[test]
fn a_write_changes_nothing_else() {
    let mut b = Bus::new();
    b.write8(0x8000_0FFF, 1);
    b.write8(0x8000_1001, 2);
    b.write8(0x1F80_0000, 3);
    b.write8(0x8000_1000, 9);
    assert_eq!(b.read8(0x8000_0FFF), 1);
    assert_eq!(b.read8(0x8000_1001), 2);
    assert_eq!(b.read8(0x1F80_0000), 3);
    assert_eq!(b.read8(0x8000_1000), 9);
    // Reading memory again and again gives the same.
    assert_eq!(b.read32(0x8000_1000), b.read32(0x8000_1000));
}

#[test]
fn without_events_nothing_happens() {
    let mut b = Bus::new();
    b.handle_fired_interrupts(0);
    assert_eq!(b.read_istat(), 0);
    assert_eq!(b.scheduler.interrupt_flags, 0);
    // Slots without a handler do nothing either.
    b.handle_fired_interrupts((1 << 1) | (1 << 5) | (1 << 15));
    assert_eq!(b.read_istat(), 0);
}

#[test]
fn channel_events_finish_their_channels() {
    let mut b = Bus::new();
    b.write32(0x1F80_10A8, 0x0100_0401);
    b.write32(0x1F80_10E8, 0x1100_0002);
    b.handle_fired_interrupts((1 << 4) | (1 << 9));
    assert_eq!(b.read32(0x1F80_10A8), 0x0000_0401);
    assert_eq!(b.read32(0x1F80_10E8), 0x1000_0002);
}

#[test]
fn a_word_is_read_by_bytes_through_every_mirror() {
    let mut b = Bus::new();
    b.write32(0x8000_3000, 0x1234_5678);
    for base in [0x0000_3000u32, 0x8000_3000, 0xA000_3000] {
        assert_eq!(b.read32(base), 0x1234_5678);
        assert_eq!(b.read16(base), 0x5678);
        assert_eq!(b.read8(base), 0x78);
        assert_eq!(b.read8(base + 1), 0x56);
        assert_eq!(b.read8(base + 2), 0x34);
        assert_eq!(b.read8(base + 3), 0x12);
    }
    assert_eq!(b.read32(0x0000_3004), 0);
}

#[test]
fn an_ordering_table_leaves_the_rest_of_memory() {
    let mut b = Bus::new();
    b.write32(0x8000_0FF0, 0x1111_1111);
    b.write32(0x8000_1004, 0x2222_2222);
    dma_otc(&mut b, 0x1000, 4, 0);
    assert_eq!(b.read32(0x8000_0FF0), 0x1111_1111);
    assert_eq!(b.read32(0x8000_0FF4), 0x00FF_FFFF);
    assert_eq!(b.read32(0x8000_1000), 0x0FFC);
    assert_eq!(b.read32(0x8000_1004), 0x2222_2222);
}
