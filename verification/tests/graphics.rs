use psoxide::gpu::commands::{rgb24_to_15, sign_extend_11, unpack_color};
use psoxide::gpu::status::GpuStatus;
use psoxide::gpu::vram::Vram;
use psoxide::gpu::Gpu;

#[test]
fn gpu_starts_ready() {
    let g = Gpu::new();
    assert_eq!(g.read_status(), 0x1480_2000);
    assert_eq!(g.display.width(), 320);
    assert_eq!(g.display.height(), 240);
    assert_eq!(g.gp0_count(), 0);
}

#[test]
fn pixels_wrap_around_video_memory() {
    let mut v = Vram::new();
    v.set_pixel(1023, 511, 0x1234);
    assert_eq!(v.get_pixel(2047, 1023), 0x1234);
    v.set_pixel(1024, 512, 0x7FFF);
    assert_eq!(v.get_pixel(0, 0), 0x7FFF);
    assert_eq!(v.get_pixel(1, 0), 0);
    v.set_pixel_scaled(9, 5, 0x0042, 2);
    assert_eq!(v.get_pixel(4, 2), 0x0042);
    v.set_pixel_scaled(-1, -1, 0x0043, 1);
    assert_eq!(v.get_pixel(1023, 511), 0x0043);
    v.clear();
    assert_eq!(v.get_pixel(4, 2), 0);
}

#[test]
fn pixels_are_shown_as_rgba() {
    let mut v = Vram::new();
    v.set_pixel(3, 4, 0x7C1F);
    v.set_pixel(4, 4, 0x03E0);
    assert_eq!(v.to_rgba8(3, 4, 2, 1), vec![0xF8, 0, 0xF8, 0xFF, 0, 0xF8, 0, 0xFF]);
    assert_eq!(v.to_rgba8(0, 0, 3, 2).len(), 24);
}

#[test]
fn colours_and_vertices_are_unpacked() {
    assert_eq!(unpack_color(0x0012_3456), (0x56, 0x34, 0x12));
    assert_eq!(rgb24_to_15(0xFF, 0, 0), 0x001F);
    assert_eq!(rgb24_to_15(0, 0xFF, 0), 0x03E0);
    assert_eq!(rgb24_to_15(0x08, 0x10, 0xF8), 0x7C41);
    assert_eq!(sign_extend_11(0x7FF), -1);
    assert_eq!(sign_extend_11(0x3FF), 1023);
    assert_eq!(sign_extend_11(0x400), -1024);
}

#[test]
fn a_fill_covers_its_rounded_area() {
    let mut g = Gpu::new();
    g.gp0_write(0x02FF_0000);
    g.gp0_write((2 << 16) | 0x1F);
    g.gp0_write((3 << 16) | 0x11);
    // From x 16, 32 wide, rows 2 to 4.
    assert_eq!(g.vram.get_pixel(16, 2), 0x7C00);
    assert_eq!(g.vram.get_pixel(47, 4), 0x7C00);
    assert_eq!(g.vram.get_pixel(48, 4), 0);
    assert_eq!(g.vram.get_pixel(15, 2), 0);
    assert_eq!(g.vram.get_pixel(16, 5), 0);
    assert_eq!(g.nonzero_pixel_count(0, 0, 100, 10), 96);
}

#[test]
fn an_upload_can_be_downloaded_again() {
    let mut g = Gpu::new();
    g.gp0_write(0xA000_0000);
    g.gp0_write((1 << 16) | 1022);
    g.gp0_write((2 << 16) | 3);
    for w in [0x0002_0001u32, 0x0004_0003, 0x0006_0005] {
        g.gp0_write(w);
    }
    // The third pixel of the first row wraps to column 0.
    assert_eq!(g.vram.get_pixel(1022, 1), 1);
    assert_eq!(g.vram.get_pixel(1023, 1), 2);
    assert_eq!(g.vram.get_pixel(0, 1), 3);
    assert_eq!(g.vram.get_pixel(0, 2), 6);
    g.gp0_write(0xC000_0000);
    g.gp0_write((1 << 16) | 1022);
    g.gp0_write((2 << 16) | 3);
    assert_eq!(g.read_data(), 0x0002_0001);
    assert_eq!(g.read_data(), 0x0004_0003);
    assert_eq!(g.read_data(), 0x0006_0005);
    assert_eq!(g.read_data(), 0);
}

#[test]
fn an_odd_upload_drops_the_last_half_word() {
    let mut g = Gpu::new();
    g.gp0_write(0xA000_0000);
    g.gp0_write(0);
    g.gp0_write((1 << 16) | 1);
    g.gp0_write(0x7777_5555);
    assert_eq!(g.vram.get_pixel(0, 0), 0x5555);
    assert_eq!(g.vram.get_pixel(1, 0), 0);
    // The processor is idle again: this is a command.
    g.gp0_write(0xE300_0405);
    assert_eq!(g.command_processor.draw_area_left, 5);
    assert_eq!(g.command_processor.draw_area_top, 1);
}

#[test]
fn a_copy_moves_pixels() {
    let mut g = Gpu::new();
    g.vram.set_pixel(10, 20, 0x1111);
    g.vram.set_pixel(11, 21, 0x2222);
    g.gp0_write(0x8000_0000);
    g.gp0_write((20 << 16) | 10);
    g.gp0_write((40 << 16) | 30);
    g.gp0_write((2 << 16) | 2);
    assert_eq!(g.vram.get_pixel(30, 40), 0x1111);
    assert_eq!(g.vram.get_pixel(31, 41), 0x2222);
    assert_eq!(g.vram.get_pixel(10, 20), 0x1111);
}

#[test]
fn drawing_commands_swallow_their_words() {
    // Command, number of further words.
    let lengths = [
        (0x20u32, 3u32),
        (0x28, 4),
        (0x24, 6),
        (0x2C, 8),
        (0x30, 5),
        (0x3C, 11),
        (0x40, 2),
        (0x50, 3),
        (0x48, 7),
        (0x60, 2),
        (0x64, 3),
        (0x68, 1),
        (0x74, 2),
    ];
    for (cmd, more) in lengths {
        let mut g = Gpu::new();
        g.gp0_write(cmd << 24);
        for _ in 0..more {
            // This word would set the draw area if it were a command.
            g.gp0_write(0xE300_0007);
            assert_eq!(g.command_processor.draw_area_left, 0);
        }
        g.gp0_write(0xE300_0007);
        assert_eq!(g.command_processor.draw_area_left, 7);
    }
}

#[test]
fn environment_commands_are_taken() {
    let mut g = Gpu::new();
    g.gp0_write(0xE100_07FF);
    assert_eq!(g.read_status() & 0x7FF, 0x7FF);
    assert_eq!(g.command_processor.texpage, 0xE100_07FF);
    g.gp0_write(0xE200_1234);
    assert_eq!(g.command_processor.texture_window, 0xE200_1234);
    g.gp0_write(0xE400_0C10);
    assert_eq!(g.command_processor.draw_area_right, 0x10);
    assert_eq!(g.command_processor.draw_area_bottom, 3);
    g.gp0_write(0xE500_0000 | (5 << 11) | 0x7FE);
    assert_eq!(g.command_processor.draw_offset_x, -2);
    assert_eq!(g.command_processor.draw_offset_y, 5);
    g.gp0_write(0xE600_0003);
    assert!(g.command_processor.mask_set && g.command_processor.mask_check);
    assert_eq!(g.read_status() & 0x1800, 0x1800);
    assert_eq!(g.gp0_count(), 5);
    g.reset_frame_counters();
    assert_eq!(g.gp0_count(), 0);
}

#[test]
fn display_commands_are_taken() {
    let mut g = Gpu::new();
    g.gp1_write(0x0300_0001);
    assert_eq!(g.read_status() & (1 << 23), 1 << 23);
    g.gp1_write(0x0300_0000);
    assert_eq!(g.read_status() & (1 << 23), 0);
    g.gp1_write(0x0400_0002);
    assert_eq!((g.read_status() >> 29) & 3, 2);
    g.gp1_write(0x0500_0000 | (7 << 10) | 9);
    assert_eq!((g.display.display_area_x, g.display.display_area_y), (9, 7));
    g.gp1_write(0x0600_0000 | (0x123 << 12) | 0x456);
    assert_eq!((g.display.x_start, g.display.x_end), (0x456, 0x123));
    g.gp1_write(0x0700_0000 | (0x100 << 10) | 0x10);
    assert_eq!((g.display.y_start, g.display.y_end), (0x10, 0x100));
    g.gp1_write(0x0800_002F);
    assert_eq!(g.display.width(), 640);
    assert_eq!(g.display.height(), 480);
    assert!(g.display.is_pal && g.display.interlaced && !g.display.is_24bit);
    g.gp1_write(0x0800_0040);
    assert_eq!(g.display.width(), 368);
    assert_eq!(g.gp1_count(), 8);
    g.gp1_write(0);
    assert_eq!(g.read_status(), 0x1480_2000);
    assert_eq!(g.display.width(), 320);
}

#[test]
fn a_reset_command_abandons_a_transfer() {
    let mut g = Gpu::new();
    g.gp0_write(0xA000_0000);
    g.gp0_write(0);
    g.gp0_write((4 << 16) | 4);
    g.gp1_write(0x0100_0000);
    g.gp0_write(0xE300_0009);
    assert_eq!(g.command_processor.draw_area_left, 9);
    g.reset();
    assert_eq!(g.command_processor.draw_area_left, 0);
}

#[test]
fn status_bits_are_set_one_by_one() {
    let mut s = GpuStatus::new();
    s.set_bit(0, true);
    assert_eq!(s.read(), 0x1480_2001);
    s.set_bit(0, false);
    assert_eq!(s.read(), 0x1480_2000);
    s.set_interlace_field(true);
    assert_eq!(s.read() >> 31, 1);
    s.toggle_interlace_field();
    assert_eq!(s.read(), 0x1480_2000);
    s.set_dma_direction(7);
    assert_eq!(s.read(), 0x7480_2000);
    s.set_display_disabled(false);
    assert_eq!(s.read(), 0x7400_2000);
}
