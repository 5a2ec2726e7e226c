//! The two command ports in numbers: what the fields of their words mean.

use crate::bits::{lemma_fields_of, lemma_parts_of};
use crate::gpu::commands::{
    command_words, copied, filled, word_color15, CommandState, GpuModel, GpuState, Transfer,
};
use crate::gpu::picture_laws::{law_color, signed11};
use crate::gpu::status::law_set_bit;
use crate::gpu::vram::{pixel_at, rgba, rgba_row, rgba_rows, VRAM_PIXELS};
use crate::scheduler::flagged;
use vstd::prelude::*;

verus! {

/// The fields of environment and control words.
proof fn lemma_word_fields(x: u32, s: u32)
    by (bit_vector)
    ensures
        (x >> 10u32) & 0x1FF == x / 0x400 % 0x200,
        (x >> 10u32) & 0x3FF == x / 0x400 % 0x400,
        (x >> 11u32) & 0x7FF == x / 0x800 % 0x800,
        (x >> 12u32) & 0xFFF == x / 0x1000 % 0x1000,
        (x >> 16u32) & 0xFFFF == x / 0x1_0000,
        x & 0xFFF == x % 0x1000,
        x & 0x3F0 == x % 0x400 / 16 * 16,
        x < 0x40F ==> x & !0xFu32 == x / 16 * 16,
        x & 2 != 0 <==> x / 2 % 2 == 1,
        x & 4 != 0 <==> x / 4 % 2 == 1,
        x & 8 != 0 <==> x / 8 % 2 == 1,
        x & 0x10 != 0 <==> x / 16 % 2 == 1,
        x & 0x20 != 0 <==> x / 32 % 2 == 1,
        x & 0x40 != 0 <==> x / 64 % 2 == 1,
        (s & !0x7FFu32) | (x & 0x7FF) == s - s % 0x800 + x % 0x800,
        (x & 0xFF_FFFF) & 0xFF == x & 0xFF,
        ((x & 0xFF_FFFF) >> 8u32) & 0xFF == (x >> 8u32) & 0xFF,
        ((x & 0xFF_FFFF) >> 16u32) & 0xFF == (x >> 16u32) & 0xFF,
{
}

/// Where the display mode and the transfer direction show in the status.
proof fn lemma_mode_shown(x: u32, s: u32)
    by (bit_vector)
    ensures
        ((s & !0x7F4000u32) | ((x & 0x3F) << 17u32) | ((x & 0x40) << 10u32)) / 0x2_0000 % 0x40 == x
            % 0x40,
        ((s & !0x7F4000u32) | ((x & 0x3F) << 17u32) | ((x & 0x40) << 10u32)) / 0x1_0000 % 2 == x
            / 0x40 % 2,
        ((s & !0x7F4000u32) | ((x & 0x3F) << 17u32) | ((x & 0x40) << 10u32)) / 0x4000 % 2 == 0,
        ((s & !0x7F4000u32) | ((x & 0x3F) << 17u32) | ((x & 0x40) << 10u32)) / 0x80_0000 == s
            / 0x80_0000,
        ((s & !0x7F4000u32) | ((x & 0x3F) << 17u32) | ((x & 0x40) << 10u32)) % 0x4000 == s % 0x4000,
        ((s & !0x7F4000u32) | ((x & 0x3F) << 17u32) | ((x & 0x40) << 10u32)) / 0x8000 % 2 == s
            / 0x8000 % 2,
        ((s & !0x6000_0000u32) | (((x & 3) & 3) << 29u32)) / 0x2000_0000 % 4 == x % 4,
{
}

/// Environment words: the texture page, the corners of the draw area (ten bits across,
/// nine down), the drawing offset (two 11-bit signed numbers) and the mask flags. Each
/// sets what it names and nothing else, and the port stays idle.
pub proof fn law_environment(m: GpuModel, data: u32, i: u32)
    requires
        m.cp.state == GpuState::Idle,
        i < 32,
    ensures
        ({
            let r = m.gp0(data);
            let cmd = data as int / 0x100_0000;
            let c = CommandState { gp0_count: r.cp.gp0_count, ..m.cp };
            let raw = m.status.raw;
            &&& 0xE1 <= cmd <= 0xE6 ==> r.vram == m.vram && r.display == m.display
            &&& cmd == 0xE1 ==> r.cp == (CommandState { texpage: data, ..c }) && r.status.raw
                == raw as int / 0x800 * 0x800 + data as int % 0x800
            &&& 0xE2 <= cmd <= 0xE5 ==> r.status == m.status
            &&& cmd == 0xE2 ==> r.cp == (CommandState { texture_window: data, ..c })
            &&& cmd == 0xE3 ==> r.cp == (CommandState {
                draw_area_left: (data as int % 0x400) as i16,
                draw_area_top: (data as int / 0x400 % 0x200) as i16,
                ..c
            })
            &&& cmd == 0xE4 ==> r.cp == (CommandState {
                draw_area_right: (data as int % 0x400) as i16,
                draw_area_bottom: (data as int / 0x400 % 0x200) as i16,
                ..c
            })
            &&& cmd == 0xE5 ==> r.cp == (CommandState {
                draw_offset_x: signed11(data as int % 0x800) as i16,
                draw_offset_y: signed11(data as int / 0x800 % 0x800) as i16,
                ..c
            })
            &&& cmd == 0xE6 ==> r.cp == (CommandState {
                mask_set: data % 2 == 1,
                mask_check: data / 2 % 2 == 1,
                ..c
            }) && flagged(r.status.raw, i) == (if i == 11 {
                data % 2 == 1
            } else if i == 12 {
                data / 2 % 2 == 1
            } else {
                flagged(raw, i)
            })
            &&& cmd == 0 || cmd == 1 || 0x03 <= cmd < 0x20 || cmd > 0xE6 ==> r == (GpuModel {
                cp: c,
                ..m
            })
        }),
{
    lemma_fields_of(data);
    lemma_parts_of(data);
    lemma_word_fields(data, m.status.raw);
    assert((data >> 11u32) & 0x7FF == data / 0x800 % 0x800);
    let raw = m.status.raw;
    law_set_bit(raw, 11, data & 1 != 0, i);
    law_set_bit(
        if data & 1 != 0 {
            raw | (1u32 << 11u32)
        } else {
            raw & !(1u32 << 11u32)
        },
        12,
        data & 2 != 0,
        i,
    );
}

/// Control words: what is shown (a corner, ten bits across and nine down; the columns,
/// twelve bits each; the lines, ten bits each), the display switch and the transfer
/// direction. Video memory stays as it is.
pub proof fn law_display_control(m: GpuModel, data: u32, i: u32)
    requires
        i < 32,
    ensures
        ({
            let r = m.gp1(data);
            let cmd = data as int / 0x100_0000;
            let (d, e) = (m.display, r.display);
            &&& r.vram == m.vram
            &&& 0x02 <= cmd ==> r.cp == (CommandState { gp1_count: r.cp.gp1_count, ..m.cp })
            &&& cmd == 0x01 ==> r.cp == (CommandState {
                state: GpuState::Idle,
                buffer: Seq::empty(),
                gp1_count: r.cp.gp1_count,
                ..m.cp
            }) && r.status == m.status && e == d
            &&& cmd == 0x03 ==> e == d && flagged(r.status.raw, i) == (if i == 23 {
                data % 2 == 1
            } else {
                flagged(m.status.raw, i)
            })
            &&& cmd == 0x04 ==> e == d && r.status.raw as int / 0x2000_0000 % 4 == data % 4
            &&& 0x05 <= cmd <= 0x07 ==> r.status == m.status
            &&& cmd == 0x05 ==> e.display_area_x == data % 0x400 && e.display_area_y == data / 0x400
                % 0x200 && e.x_start == d.x_start && e.y_start == d.y_start && e.x_end == d.x_end
                && e.y_end == d.y_end
            &&& cmd == 0x06 ==> e.x_start == data % 0x1000 && e.x_end == data / 0x1000 % 0x1000
                && e.y_start == d.y_start && e.y_end == d.y_end && e.display_area_x
                == d.display_area_x && e.display_area_y == d.display_area_y
            &&& cmd == 0x07 ==> e.y_start == data % 0x400 && e.y_end == data / 0x400 % 0x400
                && e.x_start == d.x_start && e.x_end == d.x_end && e.display_area_x
                == d.display_area_x && e.display_area_y == d.display_area_y
            &&& 0x05 <= cmd <= 0x07 ==> e.horizontal_resolution == d.horizontal_resolution
                && e.vertical_resolution == d.vertical_resolution && e.is_pal == d.is_pal
                && e.is_24bit == d.is_24bit && e.interlaced == d.interlaced
            &&& cmd > 0x08 || cmd == 0x02 ==> e == d && r.status == m.status
        }),
{
    lemma_fields_of(data);
    lemma_parts_of(data);
    lemma_word_fields(data, 0);
    law_set_bit(m.status.raw, 23, data & 1 != 0, i);
    lemma_mode_shown(data, m.status.raw);
}

/// The display mode word: 256, 320, 512 or 640 columns by its low two bits, or 368 by
/// bit 6, 480 lines by bit 2 and 240 otherwise, then PAL, 24-bit colour and interlacing.
/// The status shows the low six bits from bit 17 on and bit 6 at bit 16.
pub proof fn law_display_mode(m: GpuModel, data: u32)
    requires
        data / 0x100_0000 == 0x08,
    ensures
        ({
            let r = m.gp1(data);
            let (d, e) = (m.display, r.display);
            let (s, t) = (m.status.raw, r.status.raw);
            let columns = data % 4;
            &&& e.horizontal_resolution == (if data / 64 % 2 == 1 {
                368
            } else if columns == 0 {
                256
            } else if columns == 1 {
                320
            } else if columns == 2 {
                512
            } else {
                640int
            })
            &&& e.vertical_resolution == (if data / 4 % 2 == 1 {
                480
            } else {
                240int
            })
            &&& e.is_pal == (data / 8 % 2 == 1)
            &&& e.is_24bit == (data / 16 % 2 == 1)
            &&& e.interlaced == (data / 32 % 2 == 1)
            &&& e.x_start == d.x_start && e.x_end == d.x_end && e.y_start == d.y_start && e.y_end
                == d.y_end && e.display_area_x == d.display_area_x && e.display_area_y
                == d.display_area_y
            &&& t / 0x2_0000 % 64 == data % 64
            &&& t / 0x1_0000 % 2 == data / 64 % 2
            &&& t / 0x80_0000 == s / 0x80_0000
            &&& t % 0x4000 == s % 0x4000
        }),
{
    lemma_fields_of(data);
    lemma_word_fields(data, 0);
    lemma_mode_shown(data, m.status.raw);
}

/// A reset makes the port idle, shows 320 by 240 from the origin of video memory, and
/// clears the draw area, the drawing offset and the texture page.
pub proof fn law_reset(m: GpuModel, data: u32)
    requires
        data < 0x100_0000,
    ensures
        ({
            let r = m.gp1(data);
            &&& r.vram == m.vram
            &&& r.status.raw == 0x1480_2000
            &&& r.display.horizontal_resolution == 320 && r.display.vertical_resolution == 240
            &&& r.display.display_area_x == 0 && r.display.display_area_y == 0
            &&& r.display.x_start == 0x200 && r.display.x_end == 0xC00
            &&& r.display.y_start == 0x10 && r.display.y_end == 0x100
            &&& !r.display.is_pal && !r.display.is_24bit && !r.display.interlaced
            &&& r.cp.state == GpuState::Idle && r.cp.buffer.len() == 0 && r.cp.texpage == 0
            &&& r.cp.draw_area_left == 0 && r.cp.draw_area_right == 0
            &&& r.cp.draw_area_top == 0 && r.cp.draw_area_bottom == 0
            &&& r.cp.draw_offset_x == 0 && r.cp.draw_offset_y == 0
        }),
{
    lemma_fields_of(data);
}

/// The bits of a command byte.
proof fn lemma_command_bits(c: u8)
    by (bit_vector)
    ensures
        c & 0x04 != 0 <==> c / 4 % 2 == 1,
        c & 0x08 != 0 <==> c / 8 % 2 == 1,
        c & 0x10 != 0 <==> c / 16 % 2 == 1,
        (c >> 3u32) & 3 == c / 8 % 4,
{
}

/// How many words each drawing command takes. The polygons, by their low bits: three or
/// four corners, flat or shaded, plain or textured.
pub proof fn law_command_lengths(cmd: u8)
    ensures
        0x20 <= cmd < 0x40 ==> command_words(cmd) == (match cmd / 4 % 8 {
            0 => 4int,
            1 => 7,
            2 => 5,
            3 => 9,
            4 => 6,
            5 => 9,
            6 => 8,
            _ => 12,
        }),
        0x40 <= cmd < 0x60 ==> command_words(cmd) == (match cmd / 8 % 4 {
            0 => 3int,
            2 => 4,
            _ => 8,
        }),
        0x60 <= cmd < 0x80 ==> command_words(cmd) == (match cmd / 4 % 8 {
            0 => 3int,
            1 => 4,
            2 => 2,
            3 => 3,
            4 => 2,
            5 => 3,
            6 => 2,
            _ => 3,
        }),
        cmd == 0x80 ==> command_words(cmd) == 4,
        cmd == 0x02 || cmd == 0xA0 || cmd == 0xC0 ==> command_words(cmd) == 3,
        cmd < 0x02 || 0x02 < cmd < 0x20 || cmd > 0xC0 ==> command_words(cmd) == 0,
{
    lemma_command_bits(cmd);
}

/// Words sent to the drawing port.
pub open spec fn sent(m: GpuModel, words: Seq<u32>) -> GpuModel
    decreases words.len(),
{
    if words.len() == 0 {
        m
    } else {
        sent(m, words.drop_last()).gp0(words.last())
    }
}

/// A command is collected: until its last word has come the port waits for the rest, and
/// nothing is drawn.
pub proof fn law_command_collected(m: GpuModel, words: Seq<u32>)
    requires
        m.cp.state == GpuState::Idle,
        0 < words.len() < command_words((words[0] as int / 0x100_0000) as u8),
    ensures
        ({
            let r = sent(m, words);
            let cmd = (words[0] as int / 0x100_0000) as u8;
            &&& r.cp.state == (GpuState::ReceivingCommand {
                cmd,
                words_remaining: (command_words(cmd) - words.len()) as u32,
            })
            &&& r.cp.buffer == words
            &&& r.vram == m.vram && r.display == m.display && r.status == m.status
            &&& r.cp.texpage == m.cp.texpage && r.cp.draw_area_left == m.cp.draw_area_left
                && r.cp.draw_area_right == m.cp.draw_area_right && r.cp.draw_area_top
                == m.cp.draw_area_top && r.cp.draw_area_bottom == m.cp.draw_area_bottom
                && r.cp.draw_offset_x == m.cp.draw_offset_x && r.cp.draw_offset_y
                == m.cp.draw_offset_y
        }),
    decreases words.len(),
{
    let front = words.drop_last();
    lemma_fields_of(words[0]);
    if words.len() == 1 {
        assert(sent(m, front) == m);
        assert(words =~= seq![words[0]]);
    } else {
        assert(front[0] == words[0]);
        law_command_collected(m, front);
        assert(front.push(words.last()) =~= words);
    }
}

/// With its last word a command is carried out and the port is idle again, or moves
/// pixels for the two commands that transfer them. Of the commands that this port keeps
/// for the rasterizer, video memory shows nothing.
pub proof fn law_command_completed(m: GpuModel, words: Seq<u32>)
    requires
        m.cp.state == GpuState::Idle,
        words.len() > 0,
        words.len() == command_words((words[0] as int / 0x100_0000) as u8),
    ensures
        ({
            let r = sent(m, words);
            let cmd = words[0] as int / 0x100_0000;
            &&& cmd != 0xA0 && cmd != 0xC0 ==> r.cp.state == GpuState::Idle
            &&& cmd != 0x02 && cmd != 0x80 ==> r.vram == m.vram
            &&& r.cp.buffer == words && r.display == m.display && r.status == m.status
        }),
{
    let front = words.drop_last();
    lemma_fields_of(words[0]);
    law_command_lengths((words[0] as int / 0x100_0000) as u8);
    assert(front[0] == words[0]);
    law_command_collected(m, front);
    assert(front.push(words.last()) =~= words);
}

/// The fill command colours the pixels from its corner on, in steps of sixteen columns,
/// and wraps at the edges.
pub proof fn law_fill_command(m: GpuModel, color: u32, xy: u32, wh: u32, k: int)
    requires
        m.cp.state == GpuState::Idle,
        m.vram.len() == VRAM_PIXELS,
        color / 0x100_0000 == 0x02,
        0 <= k < VRAM_PIXELS,
    ensures
        ({
            let r = sent(m, seq![color, xy, wh]);
            let (x, y) = (xy as int % 0x400 / 16 * 16, xy as int / 0x1_0000 % 0x200);
            let (w, h) = ((wh as int % 0x400 + 15) / 16 * 16, wh as int / 0x1_0000 % 0x200);
            let pixel = color as int % 0x100 / 8 + color as int / 0x100 % 0x100 / 8 * 32
                + color as int / 0x1_0000 % 0x100 / 8 * 1024;
            &&& r.cp.state == GpuState::Idle
            &&& r.vram[k] == (if (k % 1024 - x) % 1024 < w && (k / 1024 - y) % 512 < h {
                pixel as u16
            } else {
                m.vram[k]
            })
        }),
{
    let words = seq![color, xy, wh];
    let front = words.drop_last();
    assert(words.len() == 3 && words[0] == color);
    assert(front =~= seq![color, xy]);
    law_command_lengths(2);
    law_command_collected(m, front);
    assert(front.push(wh) =~= words);
    let q = sent(m, front);
    assert(sent(m, words) == q.gp0(wh));
    lemma_fill_fields(color, xy);
    lemma_fill_width(wh);
    assert(q.gp0(wh).vram == filled(
        m.vram,
        xy as int % 0x400 / 16 * 16,
        xy as int / 0x1_0000 % 0x200,
        (wh as int % 0x400 + 15) / 16 * 16,
        wh as int / 0x1_0000 % 0x200,
        word_color15(color & 0xFF_FFFF),
    ));
}

proof fn lemma_fill_fields(color: u32, xy: u32)
    ensures
        xy & 0x3F0 == xy as int % 0x400 / 16 * 16,
        (xy >> 16u32) & 0x1FF == xy as int / 0x1_0000 % 0x200,
        word_color15(color & 0xFF_FFFF) == color as int % 0x100 / 8 + color as int / 0x100 % 0x100
            / 8 * 32 + color as int / 0x1_0000 % 0x100 / 8 * 1024,
{
    assert(xy & 0x3F0 == xy as int % 0x400 / 16 * 16 && (xy >> 16u32) & 0x1FF == xy as int
        / 0x1_0000 % 0x200) by {
        lemma_parts_of(xy);
        lemma_word_fields(xy, 0);
    }
    assert(word_color15(color & 0xFF_FFFF) == word_color15(color)) by {
        lemma_word_fields(color, 0);
    }
    law_color(color);
}

proof fn lemma_fill_width(wh: u32)
    ensures
        (((wh & 0x3FF) + 0xF) as u32 & !0xFu32) == (wh as int % 0x400 + 15) / 16 * 16,
        (wh >> 16u32) & 0x1FF == wh as int / 0x1_0000 % 0x200,
{
    lemma_parts_of(wh);
    lemma_word_fields(((wh & 0x3FF) + 0xF) as u32, 0);
}

/// The copy command copies between the corners that its second and third word name, as
/// many columns and rows as its last word says.
pub proof fn law_copy_command(m: GpuModel, first: u32, from: u32, to: u32, wh: u32)
    requires
        m.cp.state == GpuState::Idle,
        first / 0x100_0000 == 0x80,
    ensures
        ({
            let r = sent(m, seq![first, from, to, wh]);
            &&& r.cp.state == GpuState::Idle
            &&& r.vram == copied(
                m.vram,
                from as int % 0x400,
                from as int / 0x1_0000 % 0x200,
                to as int % 0x400,
                to as int / 0x1_0000 % 0x200,
                (wh as int % 0x1_0000) as nat,
                (wh as int / 0x1_0000) as nat,
            )
        }),
{
    let words = seq![first, from, to, wh];
    let front = words.drop_last();
    assert(words.len() == 4 && words[0] == first);
    assert(front =~= seq![first, from, to]);
    law_command_collected(m, front);
    lemma_parts_of(from);
    lemma_parts_of(to);
    lemma_fields_of(wh);
    lemma_word_fields(wh, 0);
    assert(front.push(wh) =~= words);
    assert(sent(m, words) == sent(m, front).gp0(wh));
}

/// The two host transfers start at their corner, at the first pixel. A size of zero means
/// the whole width or height.
pub proof fn law_transfer_command(m: GpuModel, first: u32, xy: u32, wh: u32)
    requires
        m.cp.state == GpuState::Idle,
        first / 0x100_0000 == 0xA0 || first / 0x100_0000 == 0xC0,
    ensures
        ({
            let r = sent(m, seq![first, xy, wh]);
            let (w, h) = (wh as int % 0x1_0000, wh as int / 0x1_0000);
            let t = Transfer {
                x: (xy as int % 0x400) as u16,
                y: (xy as int / 0x1_0000 % 0x200) as u16,
                w: (if w == 0 {
                    1024
                } else {
                    w
                }) as u16,
                h: (if h == 0 {
                    512
                } else {
                    h
                }) as u16,
                current_x: 0,
                current_y: 0,
            };
            &&& r.vram == m.vram
            &&& first / 0x100_0000 == 0xA0 ==> r.cp.state == (GpuState::CpuToVram { t })
            &&& first / 0x100_0000 == 0xC0 ==> r.cp.state == (GpuState::VramToCpu { t })
        }),
{
    let words = seq![first, xy, wh];
    let front = words.drop_last();
    assert(words.len() == 3 && words[0] == first);
    assert(front =~= seq![first, xy]);
    law_command_collected(m, front);
    lemma_fields_of(wh);
    lemma_parts_of(xy);
    lemma_word_fields(wh, 0);
    assert(front.push(wh) =~= words);
    assert(sent(m, words) == sent(m, front).gp0(wh));
}

proof fn lemma_shown_pixel(p: u16)
    by (bit_vector)
    ensures
        ((p & 0x1F) << 3u32) as u8 as int == (p % 32) * 8,
        (((p >> 5u32) & 0x1F) << 3u32) as u8 as int == (p / 32 % 32) * 8,
        (((p >> 10u32) & 0x1F) << 3u32) as u8 as int == (p / 1024 % 32) * 8,
{
}

/// A pixel is shown as red, green and blue, eight times its five bits each, and opaque.
pub proof fn law_shown_pixel(p: u16)
    ensures
        rgba(p) == seq![
            (p as int % 32 * 8) as u8,
            (p as int / 32 % 32 * 8) as u8,
            (p as int / 1024 % 32 * 8) as u8,
            255u8,
        ],
{
    lemma_shown_pixel(p);
}

/// The picture of an area of video memory has four bytes for each pixel, row by row from
/// the top, each row from the left.
pub proof fn law_shown_area(v: Seq<u16>, x: int, y: int, w: nat, h: nat, i: int, j: int, c: int)
    requires
        0 <= i < w,
        0 <= j < h,
        0 <= c < 4,
    ensures
        rgba_rows(v, x, y, w, h).len() == 4 * w * h,
        rgba_rows(v, x, y, w, h)[4 * (j * w + i) + c] == rgba(pixel_at(v, x + i, y + j))[c],
    decreases h,
{
    lemma_row_length(v, x, y + h - 1, w);
    lemma_rows_length(v, x, y, w, (h - 1) as nat);
    let before = rgba_rows(v, x, y, w, (h - 1) as nat);
    assert(4 * w * h == 4 * w * (h - 1) + 4 * w) by (nonlinear_arith);
    assert(4 * (j * w + i) + c < 4 * w * (j + 1) && 4 * (j * w + i) == 4 * w * j + 4 * i)
        by (nonlinear_arith)
        requires
            0 <= i < w,
            0 <= c < 4,
    ;
    if j == h - 1 {
        lemma_row_pixel(v, x, y + h - 1, w, i, c);
    } else {
        assert(4 * w * (j + 1) <= 4 * w * (h - 1)) by (nonlinear_arith)
            requires
                j + 1 <= h - 1,
                w >= 0,
        ;
        law_shown_area(v, x, y, w, (h - 1) as nat, i, j, c);
        assert(4 * (j * w + i) + c >= 0) by (nonlinear_arith)
            requires
                j >= 0,
                w >= 0,
                i >= 0,
                c >= 0,
        ;
    }
}

proof fn lemma_rows_length(v: Seq<u16>, x: int, y: int, w: nat, h: nat)
    ensures
        rgba_rows(v, x, y, w, h).len() == 4 * w * h,
    decreases h,
{
    if h > 0 {
        lemma_rows_length(v, x, y, w, (h - 1) as nat);
        lemma_row_length(v, x, y + h - 1, w);
        assert(4 * w * h == 4 * w * (h - 1) + 4 * w) by (nonlinear_arith);
    } else {
        assert(4 * w * h == 0) by (nonlinear_arith)
            requires
                h == 0,
        ;
    }
}

proof fn lemma_row_length(v: Seq<u16>, x: int, y: int, w: nat)
    ensures
        rgba_row(v, x, y, w).len() == 4 * w,
    decreases w,
{
    if w > 0 {
        lemma_row_length(v, x, y, (w - 1) as nat);
    }
}

proof fn lemma_row_pixel(v: Seq<u16>, x: int, y: int, w: nat, i: int, c: int)
    requires
        0 <= i < w,
        0 <= c < 4,
    ensures
        rgba_row(v, x, y, w)[4 * i + c] == rgba(pixel_at(v, x + i, y))[c],
    decreases w,
{
    lemma_row_length(v, x, y, (w - 1) as nat);
    if i < w - 1 {
        lemma_row_pixel(v, x, y, (w - 1) as nat, i, c);
    }
}

} // verus!
