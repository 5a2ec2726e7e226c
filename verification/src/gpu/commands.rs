//! The GPU command ports: GP0 for drawing and transfers, GP1 for control.

use crate::gpu::display::DisplayConfig;
use crate::gpu::status::{bit_set_to, GpuStatus};
use crate::gpu::vram::{pixel_at, pixel_index, with_pixel, VRAM_PIXELS, Vram};
use vstd::prelude::*;

verus! {

/// A rectangle transfer between the host and video memory, with the position
/// of the next pixel inside the rectangle.
#[derive(Debug, Clone, Copy, PartialEq, Eq, Structural)]
pub struct Transfer {
    pub x: u16,
    pub y: u16,
    pub w: u16,
    pub h: u16,
    pub current_x: u16,
    pub current_y: u16,
}

/// What the GP0 port expects next.
#[derive(Debug, Clone, Copy, PartialEq, Eq, Structural)]
pub enum GpuState {
    Idle,
    ReceivingCommand { cmd: u8, words_remaining: u32 },
    CpuToVram { t: Transfer },
    VramToCpu { t: Transfer },
}

/// The command processor: the port state, the command being received and the
/// drawing environment.
pub struct CommandProcessor {
    pub state: GpuState,
    pub command_buffer: Vec<u32>,
    pub texpage: u32,
    pub draw_area_left: i16,
    pub draw_area_top: i16,
    pub draw_area_right: i16,
    pub draw_area_bottom: i16,
    pub draw_offset_x: i16,
    pub draw_offset_y: i16,
    pub mask_set: bool,
    pub mask_check: bool,
    pub texture_window: u32,
    pub gp0_count: u32,
    pub gp1_count: u32,
}

/// The state of the command processor.
pub struct CommandState {
    pub state: GpuState,
    pub buffer: Seq<u32>,
    pub texpage: u32,
    pub draw_area_left: i16,
    pub draw_area_top: i16,
    pub draw_area_right: i16,
    pub draw_area_bottom: i16,
    pub draw_offset_x: i16,
    pub draw_offset_y: i16,
    pub mask_set: bool,
    pub mask_check: bool,
    pub texture_window: u32,
    pub gp0_count: u32,
    pub gp1_count: u32,
}

/// The state of the whole graphics processor.
pub struct GpuModel {
    pub vram: Seq<u16>,
    pub status: GpuStatus,
    pub display: DisplayConfig,
    pub cp: CommandState,
}

/// The parts of a graphics processor put together.
pub open spec fn gpu_model(
    vram: Vram,
    status: GpuStatus,
    display: DisplayConfig,
    cp: CommandProcessor,
) -> GpuModel {
    GpuModel { vram: vram@, status, display, cp: cp@ }
}

impl View for CommandProcessor {
    type V = CommandState;

    open spec fn view(&self) -> CommandState {
        CommandState {
            state: self.state,
            buffer: self.command_buffer@,
            texpage: self.texpage,
            draw_area_left: self.draw_area_left,
            draw_area_top: self.draw_area_top,
            draw_area_right: self.draw_area_right,
            draw_area_bottom: self.draw_area_bottom,
            draw_offset_x: self.draw_offset_x,
            draw_offset_y: self.draw_offset_y,
            mask_set: self.mask_set,
            mask_check: self.mask_check,
            texture_window: self.texture_window,
            gp0_count: self.gp0_count,
            gp1_count: self.gp1_count,
        }
    }
}

/// The words of a polygon command: one for the command with its first colour,
/// one for each vertex, one more colour for each further vertex if shaded, and
/// one texture word for each vertex if textured.
pub open spec fn polygon_words(cmd: u8) -> u32 {
    let vertices: int = if cmd & 0x08 != 0 {
        4
    } else {
        3
    };
    let colors: int = if cmd & 0x10 != 0 {
        vertices - 1
    } else {
        0
    };
    let texels: int = if cmd & 0x04 != 0 {
        vertices
    } else {
        0
    };
    (1 + colors + vertices + texels) as u32
}

/// The words of a line command; a polyline is taken to have eight.
pub open spec fn line_words(cmd: u8) -> u32 {
    if cmd & 0x08 != 0 {
        8
    } else if cmd & 0x10 != 0 {
        4
    } else {
        3
    }
}

/// The words of a rectangle command: colour and vertex, a texture word if
/// textured, a size word if the size is variable.
pub open spec fn rect_words(cmd: u8) -> u32 {
    let texels: int = if cmd & 0x04 != 0 {
        1
    } else {
        0
    };
    let size: int = if (cmd >> 3) & 3 == 0 {
        1
    } else {
        0
    };
    (2 + texels + size) as u32
}

/// The number of words of a command that takes more than one, and 0 for the
/// others.
pub open spec fn command_words(cmd: u8) -> u32 {
    if cmd == 0x02 || cmd == 0xA0 || cmd == 0xC0 {
        3
    } else if cmd == 0x80 {
        4
    } else if 0x20 <= cmd <= 0x3F {
        polygon_words(cmd)
    } else if 0x40 <= cmd <= 0x5F {
        line_words(cmd)
    } else if 0x60 <= cmd <= 0x7F {
        rect_words(cmd)
    } else {
        0
    }
}

/// An 11-bit two's complement number.
pub open spec fn sext11(v: u32) -> i16 {
    if v & 0x7FF < 0x400 {
        (v & 0x7FF) as i16
    } else {
        ((v & 0x7FF) - 0x800) as i16
    }
}

/// A 24-bit colour reduced to 15 bits.
pub open spec fn color15(r: u8, g: u8, b: u8) -> u16 {
    ((r as u16 >> 3) & 0x1F) | (((g as u16 >> 3) & 0x1F) << 5) | (((b as u16 >> 3) & 0x1F) << 10)
}

/// The 15-bit pixel of a colour word.
pub open spec fn word_color15(word: u32) -> u16 {
    color15((word & 0xFF) as u8, ((word >> 8) & 0xFF) as u8, ((word >> 16) & 0xFF) as u8)
}

/// Video memory with the `w` by `h` rectangle at (`x`, `y`) filled, wrapping at
/// the edges.
pub open spec fn filled(v: Seq<u16>, x: int, y: int, w: int, h: int, pixel: u16) -> Seq<u16> {
    Seq::new(
        v.len(),
        |k: int|
            if (k % 1024 - x) % 1024 < w && (k / 1024 - y) % 512 < h {
                pixel
            } else {
                v[k]
            },
    )
}

/// The first `n` pixels of one row copied, left to right.
pub open spec fn copied_row(v: Seq<u16>, sx: int, sy: int, dx: int, dy: int, n: nat) -> Seq<u16>
    decreases n,
{
    if n == 0 {
        v
    } else {
        let before = copied_row(v, sx, sy, dx, dy, (n - 1) as nat);
        with_pixel(before, dx + n - 1, dy, pixel_at(before, sx + n - 1, sy))
    }
}

/// The first `n` rows of a rectangle of width `w` copied, top to bottom.
pub open spec fn copied(v: Seq<u16>, sx: int, sy: int, dx: int, dy: int, w: nat, n: nat) -> Seq<u16>
    decreases n,
{
    if n == 0 {
        v
    } else {
        copied_row(
            copied(v, sx, sy, dx, dy, w, (n - 1) as nat),
            sx,
            sy + n - 1,
            dx,
            dy + n - 1,
            w,
        )
    }
}

/// The transfer that a host copy command with position word `xy` and size word
/// `wh` starts; a size of zero stands for the full extent.
pub open spec fn transfer_of(xy: u32, wh: u32) -> Transfer {
    let w = (wh & 0xFFFF) as u16;
    let h = ((wh >> 16) & 0xFFFF) as u16;
    Transfer {
        x: (xy & 0x3FF) as u16,
        y: ((xy >> 16) & 0x1FF) as u16,
        w: if w == 0 {
            1024
        } else {
            w
        },
        h: if h == 0 {
            512
        } else {
            h
        },
        current_x: 0,
        current_y: 0,
    }
}

impl Transfer {
    /// The position lies inside the rectangle.
    pub open spec fn wf(self) -> bool {
        self.current_x < self.w && self.current_y < self.h
    }

    /// The column of the next pixel.
    pub open spec fn px(self) -> int {
        self.x + self.current_x
    }

    /// The row of the next pixel.
    pub open spec fn py(self) -> int {
        self.y + self.current_y
    }

    /// The transfer at the following pixel, row by row, or none after the last.
    pub open spec fn next(self) -> Option<Transfer> {
        if self.current_x + 1 < self.w {
            Some(Transfer { current_x: (self.current_x + 1) as u16, ..self })
        } else if self.current_y + 1 < self.h {
            Some(Transfer { current_x: 0, current_y: (self.current_y + 1) as u16, ..self })
        } else {
            None
        }
    }

    /// Video memory and transfer after one word of two pixels has come in. The
    /// second pixel is dropped if the first one was the last.
    pub open spec fn upload(self, v: Seq<u16>, data: u32) -> (Seq<u16>, Option<Transfer>) {
        let v1 = with_pixel(v, self.px(), self.py(), data as u16);
        match self.next() {
            None => (v1, None),
            Some(t) => (with_pixel(v1, t.px(), t.py(), (data >> 16) as u16), t.next()),
        }
    }

    /// The next word of two pixels, and the transfer after it. The upper half
    /// is zero if the first pixel was the last.
    pub open spec fn download(self, v: Seq<u16>) -> (u32, Option<Transfer>) {
        let low = pixel_at(v, self.px(), self.py()) as u32;
        match self.next() {
            None => (low, None),
            Some(t) => (low | ((pixel_at(v, t.px(), t.py()) as u32) << 16), t.next()),
        }
    }

    /// Steps to the following pixel.
    fn advance(self) -> (r: Option<Transfer>)
        requires
            self.wf(),
        ensures
            r == self.next(),
            r matches Some(t) ==> t.wf(),
    {
        let cx: u16 = self.current_x + 1;
        if cx < self.w {
            return Some(Transfer { current_x: cx, ..self });
        }
        let cy: u16 = self.current_y + 1;
        if cy < self.h {
            Some(Transfer { current_x: 0, current_y: cy, ..self })
        } else {
            None
        }
    }
}

impl CommandState {
    /// The state after power-on.
    pub open spec fn initial() -> CommandState {
        CommandState {
            state: GpuState::Idle,
            buffer: Seq::empty(),
            texpage: 0,
            draw_area_left: 0,
            draw_area_top: 0,
            draw_area_right: 0,
            draw_area_bottom: 0,
            draw_offset_x: 0,
            draw_offset_y: 0,
            mask_set: false,
            mask_check: false,
            texture_window: 0,
            gp0_count: 0,
            gp1_count: 0,
        }
    }

    /// While a command is received, its words so far and those to come make up
    /// the whole command; a transfer's position lies inside its rectangle.
    pub open spec fn wf(self) -> bool {
        match self.state {
            GpuState::Idle => true,
            GpuState::ReceivingCommand { cmd, words_remaining } => {
                &&& words_remaining >= 1
                &&& self.buffer.len() + words_remaining == command_words(cmd)
            },
            GpuState::CpuToVram { t } => t.wf(),
            GpuState::VramToCpu { t } => t.wf(),
        }
    }

    /// The next word of a video memory read, or 0 if none is under way.
    pub open spec fn data_word(self, vram: Seq<u16>) -> u32 {
        match self.state {
            GpuState::VramToCpu { t } => t.download(vram).0,
            _ => 0,
        }
    }

    /// The state after that word has been read.
    pub open spec fn data_read(self, vram: Seq<u16>) -> CommandState {
        match self.state {
            GpuState::VramToCpu { t } => CommandState {
                state: match t.download(vram).1 {
                    None => GpuState::Idle,
                    Some(t) => GpuState::VramToCpu { t },
                },
                ..self
            },
            _ => self,
        }
    }
}

impl GpuModel {
    pub open spec fn wf(self) -> bool {
        self.vram.len() == VRAM_PIXELS && self.cp.wf()
    }

    /// The state once a complete command has been received.
    pub open spec fn executed(self, cmd: u8) -> GpuModel {
        let buf = self.cp.buffer;
        if cmd == 0x02 {
            GpuModel {
                vram: filled(
                    self.vram,
                    (buf[1] & 0x3F0) as int,
                    ((buf[1] >> 16) & 0x1FF) as int,
                    (((buf[2] & 0x3FF) + 0xF) as u32 & !0xFu32) as int,
                    ((buf[2] >> 16) & 0x1FF) as int,
                    word_color15(buf[0] & 0xFF_FFFF),
                ),
                ..self
            }
        } else if cmd == 0xA0 {
            GpuModel {
                cp: CommandState {
                    state: GpuState::CpuToVram { t: transfer_of(buf[1], buf[2]) },
                    ..self.cp
                },
                ..self
            }
        } else if cmd == 0xC0 {
            GpuModel {
                cp: CommandState {
                    state: GpuState::VramToCpu { t: transfer_of(buf[1], buf[2]) },
                    ..self.cp
                },
                ..self
            }
        } else if cmd == 0x80 {
            GpuModel {
                vram: copied(
                    self.vram,
                    (buf[1] & 0x3FF) as int,
                    ((buf[1] >> 16) & 0x1FF) as int,
                    (buf[2] & 0x3FF) as int,
                    ((buf[2] >> 16) & 0x1FF) as int,
                    (buf[3] & 0xFFFF) as nat,
                    ((buf[3] >> 16) & 0xFFFF) as nat,
                ),
                ..self
            }
        } else {
            self
        }
    }

    /// The state after a word that starts a command.
    pub open spec fn commanded(self, data: u32) -> GpuModel {
        let cmd = (data >> 24) as u8;
        let cp = self.cp;
        if command_words(cmd) > 0 {
            GpuModel {
                cp: CommandState {
                    buffer: seq![data],
                    state: GpuState::ReceivingCommand {
                        cmd,
                        words_remaining: (command_words(cmd) - 1) as u32,
                    },
                    ..cp
                },
                ..self
            }
        } else if cmd == 0xE1 {
            GpuModel {
                cp: CommandState { texpage: data, ..cp },
                status: GpuStatus { raw: (self.status.raw & !0x7FFu32) | (data & 0x7FF) },
                ..self
            }
        } else if cmd == 0xE2 {
            GpuModel { cp: CommandState { texture_window: data, ..cp }, ..self }
        } else if cmd == 0xE3 {
            GpuModel {
                cp: CommandState {
                    draw_area_left: (data & 0x3FF) as i16,
                    draw_area_top: ((data >> 10) & 0x1FF) as i16,
                    ..cp
                },
                ..self
            }
        } else if cmd == 0xE4 {
            GpuModel {
                cp: CommandState {
                    draw_area_right: (data & 0x3FF) as i16,
                    draw_area_bottom: ((data >> 10) & 0x1FF) as i16,
                    ..cp
                },
                ..self
            }
        } else if cmd == 0xE5 {
            GpuModel {
                cp: CommandState {
                    draw_offset_x: sext11(data),
                    draw_offset_y: sext11(data >> 11),
                    ..cp
                },
                ..self
            }
        } else if cmd == 0xE6 {
            GpuModel {
                cp: CommandState { mask_set: data & 1 != 0, mask_check: data & 2 != 0, ..cp },
                status: GpuStatus {
                    raw: bit_set_to(
                        bit_set_to(self.status.raw, 11, data & 1 != 0),
                        12,
                        data & 2 != 0,
                    ),
                },
                ..self
            }
        } else {
            self
        }
    }

    /// The state after a word on GP0: it continues the command or the transfer
    /// under way, or starts a command. Words that come while the host reads
    /// video memory are dropped.
    pub open spec fn gp0(self, data: u32) -> GpuModel {
        let m = GpuModel {
            cp: CommandState { gp0_count: self.cp.gp0_count.wrapping_add(1), ..self.cp },
            ..self
        };
        match self.cp.state {
            GpuState::Idle => m.commanded(data),
            GpuState::ReceivingCommand { cmd, words_remaining } => {
                let buffer = m.cp.buffer.push(data);
                if words_remaining == 1 {
                    (GpuModel {
                        cp: CommandState { buffer, state: GpuState::Idle, ..m.cp },
                        ..m
                    }).executed(cmd)
                } else {
                    GpuModel {
                        cp: CommandState {
                            buffer,
                            state: GpuState::ReceivingCommand {
                                cmd,
                                words_remaining: (words_remaining - 1) as u32,
                            },
                            ..m.cp
                        },
                        ..m
                    }
                }
            },
            GpuState::CpuToVram { t } => {
                let (vram, next) = t.upload(m.vram, data);
                GpuModel {
                    vram,
                    cp: CommandState {
                        state: match next {
                            None => GpuState::Idle,
                            Some(t) => GpuState::CpuToVram { t },
                        },
                        ..m.cp
                    },
                    ..m
                }
            },
            GpuState::VramToCpu { t } => m,
        }
    }

    /// The display mode set by a GP1 mode word.
    pub open spec fn display_mode(d: DisplayConfig, data: u32) -> DisplayConfig {
        let hr: u16 = if data & 3 == 0 {
            256
        } else if data & 3 == 1 {
            320
        } else if data & 3 == 2 {
            512
        } else {
            640
        };
        DisplayConfig {
            horizontal_resolution: if data & 0x40 != 0 {
                368
            } else {
                hr
            },
            vertical_resolution: if data & 4 != 0 {
                480
            } else {
                240
            },
            is_pal: data & 8 != 0,
            is_24bit: data & 0x10 != 0,
            interlaced: data & 0x20 != 0,
            ..d
        }
    }

    /// The state after a word on GP1.
    pub open spec fn gp1(self, data: u32) -> GpuModel {
        let cmd = (data >> 24) as u8;
        let cp = CommandState { gp1_count: self.cp.gp1_count.wrapping_add(1), ..self.cp };
        let m = GpuModel { cp, ..self };
        if cmd == 0x00 {
            GpuModel {
                status: GpuStatus::initial(),
                display: DisplayConfig::initial(),
                cp: CommandState {
                    mask_set: cp.mask_set,
                    mask_check: cp.mask_check,
                    texture_window: cp.texture_window,
                    gp0_count: cp.gp0_count,
                    gp1_count: cp.gp1_count,
                    ..CommandState::initial()
                },
                ..m
            }
        } else if cmd == 0x01 {
            GpuModel {
                cp: CommandState { state: GpuState::Idle, buffer: Seq::empty(), ..cp },
                ..m
            }
        } else if cmd == 0x03 {
            GpuModel {
                status: GpuStatus { raw: bit_set_to(m.status.raw, 23, data & 1 != 0) },
                ..m
            }
        } else if cmd == 0x04 {
            GpuModel { status: m.status.with_dma_direction(data & 3), ..m }
        } else if cmd == 0x05 {
            GpuModel {
                display: DisplayConfig {
                    display_area_x: (data & 0x3FF) as u16,
                    display_area_y: ((data >> 10) & 0x1FF) as u16,
                    ..m.display
                },
                ..m
            }
        } else if cmd == 0x06 {
            GpuModel {
                display: DisplayConfig {
                    x_start: (data & 0xFFF) as u16,
                    x_end: ((data >> 12) & 0xFFF) as u16,
                    ..m.display
                },
                ..m
            }
        } else if cmd == 0x07 {
            GpuModel {
                display: DisplayConfig {
                    y_start: (data & 0x3FF) as u16,
                    y_end: ((data >> 10) & 0x3FF) as u16,
                    ..m.display
                },
                ..m
            }
        } else if cmd == 0x08 {
            GpuModel {
                display: GpuModel::display_mode(m.display, data),
                status: GpuStatus {
                    raw: (m.status.raw & !0x7F4000u32) | ((data & 0x3F) << 17) | ((data & 0x40)
                        << 10),
                },
                ..m
            }
        } else {
            m
        }
    }

    /// The next word of a video memory read, or 0 if none is under way.
    pub open spec fn data_word(self) -> u32 {
        self.cp.data_word(self.vram)
    }

    /// The state after that word has been read.
    pub open spec fn data_read(self) -> GpuModel {
        GpuModel { cp: self.cp.data_read(self.vram), ..self }
    }
}

/// Adding coordinates with wraparound names the same pixel as adding them
/// without.
proof fn lemma_wrapped_index(x: u16, dx: u16, y: u16, dy: u16)
    ensures
        pixel_index(x.wrapping_add(dx) as int, y.wrapping_add(dy) as int) == pixel_index(
            x + dx,
            y + dy,
        ),
{
}

proof fn lemma_and_le(a: u32, b: u32)
    ensures
        a & b <= b,
        a & b <= a,
{
    crate::bits::lemma_masked_of(a, b);
}

fn polygon_word_count(cmd: u8) -> (r: u32)
    ensures
        r == polygon_words(cmd),
        r >= 4,
{
    let vertices: u32 = if cmd & 0x08 != 0 {
        4
    } else {
        3
    };
    let mut words: u32 = 1;
    if cmd & 0x10 != 0 {
        words = words + (vertices - 1);
    }
    words = words + vertices;
    if cmd & 0x04 != 0 {
        words = words + vertices;
    }
    words
}

fn line_word_count(cmd: u8) -> (r: u32)
    ensures
        r == line_words(cmd),
        r >= 3,
{
    if cmd & 0x08 != 0 {
        8
    } else if cmd & 0x10 != 0 {
        4
    } else {
        3
    }
}

fn rect_word_count(cmd: u8) -> (r: u32)
    ensures
        r == rect_words(cmd),
        r >= 2,
{
    let mut words: u32 = 2;
    if cmd & 0x04 != 0 {
        words = words + 1;
    }
    if (cmd >> 3) & 3 == 0 {
        words = words + 1;
    }
    words
}

/// An 11-bit two's complement number.
pub fn sign_extend_11(v: u32) -> (r: i16)
    ensures
        r == sext11(v),
        -1024 <= r < 1024,
{
    let low: u32 = v & 0x7FF;
    proof {
        lemma_and_le(v, 0x7FF);
    }
    if low < 0x400 {
        low as i16
    } else {
        low as i16 - 0x800
    }
}

/// A 24-bit colour reduced to 15 bits.
pub fn rgb24_to_15(r: u8, g: u8, b: u8) -> (p: u16)
    ensures
        p == color15(r, g, b),
{
    ((r as u16 >> 3) & 0x1F) | (((g as u16 >> 3) & 0x1F) << 5) | (((b as u16 >> 3) & 0x1F) << 10)
}

/// The red, green and blue bytes of a colour word.
pub fn unpack_color(word: u32) -> (c: (u8, u8, u8))
    ensures
        c.0 == (word & 0xFF) as u8,
        c.1 == ((word >> 8) & 0xFF) as u8,
        c.2 == ((word >> 16) & 0xFF) as u8,
{
    ((word & 0xFF) as u8, ((word >> 8) & 0xFF) as u8, ((word >> 16) & 0xFF) as u8)
}

/// Fills a rectangle of video memory.
fn fill(vram: &mut Vram, x: u16, y: u16, w: u16, h: u16, pixel: u16)
    requires
        old(vram).wf(),
        x + w <= u16::MAX,
        y + h <= u16::MAX,
    ensures
        final(vram).wf(),
        final(vram)@ == filled(
            old(vram)@,
            x as int,
            y as int,
            w as int,
            h as int,
            pixel,
        ),
{
    let ghost before = vram@;
    let mut dy: u16 = 0;
    while dy < h
        invariant
            vram.wf(),
            before.len() == vram@.len(),
            x + w <= u16::MAX,
            y + h <= u16::MAX,
            dy <= h,
            forall|k: int|
                0 <= k < before.len() ==> #[trigger] vram@[k] == (if (k % 1024 - x) % 1024 < w && (k
                    / 1024 - y) % 512 < dy {
                    pixel
                } else {
                    before[k]
                }),
        decreases h - dy,
    {
        let mut dx: u16 = 0;
        while dx < w
            invariant
                vram.wf(),
                before.len() == vram@.len(),
                x + w <= u16::MAX,
                y + h <= u16::MAX,
                dy < h,
                dx <= w,
                forall|k: int|
                    0 <= k < before.len() ==> #[trigger] vram@[k] == (if ((k % 1024 - x) % 1024 < w
                        && (k / 1024 - y) % 512 < dy) || ((k % 1024 - x) % 1024 < dx && (k / 1024
                        - y) % 512 == dy % 512) {
                        pixel
                    } else {
                        before[k]
                    }),
            decreases w - dx,
        {
            let ghost was = vram@;
            vram.set_pixel(x + dx, y + dy, pixel);
            proof {
                let at = pixel_index(x + dx, y + dy);
                assert forall|k: int| 0 <= k < before.len() implies #[trigger] vram@[k] == (if ((k
                    % 1024 - x) % 1024 < w && (k / 1024 - y) % 512 < dy) || ((k % 1024 - x) % 1024
                    < dx + 1 && (k / 1024 - y) % 512 == dy as int % 512) {
                    pixel
                } else {
                    before[k]
                }) by {
                    assert(vram@[k] == (if k == at {
                        pixel
                    } else {
                        was[k]
                    }));
                }
            }
            dx = dx + 1;
        }
        dy = dy + 1;
    }
    assert(vram@ =~= filled(before, x as int, y as int, w as int, h as int, pixel));
}

/// Copies a rectangle inside video memory, row by row.
fn copy(vram: &mut Vram, sx: u16, sy: u16, dx: u16, dy: u16, w: u16, h: u16)
    requires
        old(vram).wf(),
    ensures
        final(vram).wf(),
        final(vram)@ == copied(
            old(vram)@,
            sx as int,
            sy as int,
            dx as int,
            dy as int,
            w as nat,
            h as nat,
        ),
{
    let ghost before = vram@;
    let mut py: u16 = 0;
    while py < h
        invariant
            vram.wf(),
            py <= h,
            vram@ == copied(
                before,
                sx as int,
                sy as int,
                dx as int,
                dy as int,
                w as nat,
                py as nat,
            ),
        decreases h - py,
    {
        let ghost row = vram@;
        let mut px: u16 = 0;
        while px < w
            invariant
                vram.wf(),
                py < h,
                px <= w,
                vram@ == copied_row(
                    row,
                    sx as int,
                    sy + py,
                    dx as int,
                    dy + py,
                    px as nat,
                ),
            decreases w - px,
        {
            proof {
                lemma_wrapped_index(sx, px, sy, py);
                lemma_wrapped_index(dx, px, dy, py);
            }
            let pixel: u16 = vram.get_pixel(sx.wrapping_add(px), sy.wrapping_add(py));
            vram.set_pixel(dx.wrapping_add(px), dy.wrapping_add(py), pixel);
            px = px + 1;
        }
        py = py + 1;
    }
}

/// Reads the transfer that a host copy command starts.
fn decode_transfer(xy: u32, wh: u32) -> (t: Transfer)
    ensures
        t == transfer_of(xy, wh),
        t.wf(),
{
    let w: u16 = (wh & 0xFFFF) as u16;
    let h: u16 = ((wh >> 16) & 0xFFFF) as u16;
    Transfer {
        x: (xy & 0x3FF) as u16,
        y: ((xy >> 16) & 0x1FF) as u16,
        w: if w == 0 {
            1024
        } else {
            w
        },
        h: if h == 0 {
            512
        } else {
            h
        },
        current_x: 0,
        current_y: 0,
    }
}

impl CommandProcessor {
    /// An idle command processor with everything cleared.
    pub fn new() -> (r: Self)
        ensures
            r@ == CommandState::initial(),
    {
        CommandProcessor {
            state: GpuState::Idle,
            command_buffer: Vec::new(),
            texpage: 0,
            draw_area_left: 0,
            draw_area_top: 0,
            draw_area_right: 0,
            draw_area_bottom: 0,
            draw_offset_x: 0,
            draw_offset_y: 0,
            mask_set: false,
            mask_check: false,
            texture_window: 0,
            gp0_count: 0,
            gp1_count: 0,
        }
    }

    /// Takes a word on GP0.
    pub fn gp0_write(
        &mut self,
        vram: &mut Vram,
        status: &mut GpuStatus,
        display: &mut DisplayConfig,
        data: u32,
    )
        requires
            gpu_model(*old(vram), *old(status), *old(display), *old(self)).wf(),
        ensures
            gpu_model(*final(vram), *final(status), *final(display), *final(self)) == gpu_model(
                *old(vram),
                *old(status),
                *old(display),
                *old(self),
            ).gp0(data),
            gpu_model(*final(vram), *final(status), *final(display), *final(self)).wf(),
    {
        self.gp0_count = self.gp0_count.wrapping_add(1);
        match self.state {
            GpuState::Idle => self.gp0_command(Ghost(vram@), status, Ghost(*display), data),
            GpuState::ReceivingCommand { cmd, words_remaining } => {
                self.command_buffer.push(data);
                let remaining: u32 = words_remaining - 1;
                if remaining == 0 {
                    self.state = GpuState::Idle;
                    self.execute_command(vram, Ghost(*status), Ghost(*display), cmd);
                } else {
                    self.state = GpuState::ReceivingCommand { cmd, words_remaining: remaining };
                }
            },
            GpuState::CpuToVram { t } => {
                proof {
                    lemma_wrapped_index(t.x, t.current_x, t.y, t.current_y);
                }
                vram.set_pixel(
                    t.x.wrapping_add(t.current_x),
                    t.y.wrapping_add(t.current_y),
                    data as u16,
                );
                match t.advance() {
                    None => {
                        self.state = GpuState::Idle;
                    },
                    Some(n) => {
                        proof {
                            lemma_wrapped_index(n.x, n.current_x, n.y, n.current_y);
                        }
                        vram.set_pixel(
                            n.x.wrapping_add(n.current_x),
                            n.y.wrapping_add(n.current_y),
                            (data >> 16) as u16,
                        );
                        match n.advance() {
                            None => {
                                self.state = GpuState::Idle;
                            },
                            Some(m) => {
                                self.state = GpuState::CpuToVram { t: m };
                            },
                        }
                    },
                }
            },
            GpuState::VramToCpu { t } => {},
        }
    }

    /// Starts receiving a command of `words` words.
    fn begin(&mut self, cmd: u8, data: u32, words: u32)
        requires
            words >= 1,
        ensures
            final(self)@ == (CommandState {
                buffer: seq![data],
                state: GpuState::ReceivingCommand { cmd, words_remaining: (words - 1) as u32 },
                ..old(self)@
            }),
    {
        self.command_buffer.clear();
        self.command_buffer.push(data);
        self.state = GpuState::ReceivingCommand { cmd, words_remaining: words - 1 };
        assert(self.command_buffer@ =~= seq![data]);
    }

    /// Takes the first word of a command.
    fn gp0_command(
        &mut self,
        Ghost(vram): Ghost<Seq<u16>>,
        status: &mut GpuStatus,
        Ghost(display): Ghost<DisplayConfig>,
        data: u32,
    )
        requires
            old(self)@.state == GpuState::Idle,
        ensures
            final(self)@.wf(),
            (GpuModel { vram, display, status: *final(status), cp: final(self)@ }) == (GpuModel {
                vram,
                display,
                status: *old(status),
                cp: old(self)@,
            }).commanded(data),
    {
        let cmd: u8 = (data >> 24) as u8;
        match cmd {
            0x02 | 0xA0 | 0xC0 => self.begin(cmd, data, 3),
            0x80 => self.begin(cmd, data, 4),
            0x20..=0x3F => {
                let words: u32 = polygon_word_count(cmd);
                self.begin(cmd, data, words);
            },
            0x40..=0x5F => {
                let words: u32 = line_word_count(cmd);
                self.begin(cmd, data, words);
            },
            0x60..=0x7F => {
                let words: u32 = rect_word_count(cmd);
                self.begin(cmd, data, words);
            },
            0xE1 => {
                self.texpage = data;
                status.raw = (status.raw & !0x7FFu32) | (data & 0x7FF);
            },
            0xE2 => {
                self.texture_window = data;
            },
            0xE3 => {
                self.draw_area_left = (data & 0x3FF) as i16;
                self.draw_area_top = ((data >> 10) & 0x1FF) as i16;
            },
            0xE4 => {
                self.draw_area_right = (data & 0x3FF) as i16;
                self.draw_area_bottom = ((data >> 10) & 0x1FF) as i16;
            },
            0xE5 => {
                self.draw_offset_x = sign_extend_11(data);
                self.draw_offset_y = sign_extend_11(data >> 11);
            },
            0xE6 => {
                self.mask_set = data & 1 != 0;
                self.mask_check = data & 2 != 0;
                status.set_bit(11, self.mask_set);
                status.set_bit(12, self.mask_check);
            },
            _ => {},
        }
    }

    /// Carries out a complete command.
    fn execute_command(
        &mut self,
        vram: &mut Vram,
        Ghost(status): Ghost<GpuStatus>,
        Ghost(display): Ghost<DisplayConfig>,
        cmd: u8,
    )
        requires
            old(vram).wf(),
            old(self)@.state == GpuState::Idle,
            old(self)@.buffer.len() == command_words(cmd),
        ensures
            final(vram).wf(),
            final(self)@.wf(),
            gpu_model(*final(vram), status, display, *final(self)) == gpu_model(
                *old(vram),
                status,
                display,
                *old(self),
            ).executed(cmd),
    {
        match cmd {
            0x02 => {
                let color: u32 = self.command_buffer[0] & 0xFF_FFFF;
                let xy: u32 = self.command_buffer[1];
                let wh: u32 = self.command_buffer[2];
                proof {
                    lemma_and_le(xy, 0x3F0);
                    lemma_and_le(xy >> 16, 0x1FF);
                    lemma_and_le(wh, 0x3FF);
                    lemma_and_le(((wh & 0x3FF) + 0xF) as u32, !0xFu32);
                    lemma_and_le(wh >> 16, 0x1FF);
                }
                let x: u16 = (xy & 0x3F0) as u16;
                let y: u16 = ((xy >> 16) & 0x1FF) as u16;
                let w: u16 = (((wh & 0x3FF) + 0xF) & !0xFu32) as u16;
                let h: u16 = ((wh >> 16) & 0x1FF) as u16;
                let (r, g, b) = unpack_color(color);
                let pixel: u16 = rgb24_to_15(r, g, b);
                fill(vram, x, y, w, h, pixel);
            },
            0xA0 => {
                let t: Transfer = decode_transfer(self.command_buffer[1], self.command_buffer[2]);
                self.state = GpuState::CpuToVram { t };
            },
            0xC0 => {
                let t: Transfer = decode_transfer(self.command_buffer[1], self.command_buffer[2]);
                self.state = GpuState::VramToCpu { t };
            },
            0x80 => {
                let src_xy: u32 = self.command_buffer[1];
                let dst_xy: u32 = self.command_buffer[2];
                let wh: u32 = self.command_buffer[3];
                proof {
                    lemma_and_le(src_xy, 0x3FF);
                    lemma_and_le(src_xy >> 16, 0x1FF);
                    lemma_and_le(dst_xy, 0x3FF);
                    lemma_and_le(dst_xy >> 16, 0x1FF);
                    lemma_and_le(wh, 0xFFFF);
                    lemma_and_le(wh >> 16, 0xFFFF);
                }
                copy(
                    vram,
                    (src_xy & 0x3FF) as u16,
                    ((src_xy >> 16) & 0x1FF) as u16,
                    (dst_xy & 0x3FF) as u16,
                    ((dst_xy >> 16) & 0x1FF) as u16,
                    (wh & 0xFFFF) as u16,
                    ((wh >> 16) & 0xFFFF) as u16,
                );
            },
            _ => {},
        }
    }

    /// Takes a word on GP1.
    pub fn gp1_write(
        &mut self,
        vram: &mut Vram,
        status: &mut GpuStatus,
        display: &mut DisplayConfig,
        data: u32,
    )
        requires
            gpu_model(*old(vram), *old(status), *old(display), *old(self)).wf(),
        ensures
            gpu_model(*final(vram), *final(status), *final(display), *final(self)) == gpu_model(
                *old(vram),
                *old(status),
                *old(display),
                *old(self),
            ).gp1(data),
            gpu_model(*final(vram), *final(status), *final(display), *final(self)).wf(),
    {
        self.gp1_count = self.gp1_count.wrapping_add(1);
        let cmd: u8 = (data >> 24) as u8;
        match cmd {
            0x00 => {
                *status = GpuStatus::new();
                *display = DisplayConfig::new();
                self.state = GpuState::Idle;
                self.command_buffer.clear();
                self.texpage = 0;
                self.draw_area_left = 0;
                self.draw_area_top = 0;
                self.draw_area_right = 0;
                self.draw_area_bottom = 0;
                self.draw_offset_x = 0;
                self.draw_offset_y = 0;
            },
            0x01 => {
                self.state = GpuState::Idle;
                self.command_buffer.clear();
            },
            0x03 => status.set_display_disabled(data & 1 != 0),
            0x04 => status.set_dma_direction(data & 3),
            0x05 => {
                display.display_area_x = (data & 0x3FF) as u16;
                display.display_area_y = ((data >> 10) & 0x1FF) as u16;
            },
            0x06 => {
                display.x_start = (data & 0xFFF) as u16;
                display.x_end = ((data >> 12) & 0xFFF) as u16;
            },
            0x07 => {
                display.y_start = (data & 0x3FF) as u16;
                display.y_end = ((data >> 10) & 0x3FF) as u16;
            },
            0x08 => {
                let hr: u16 = match data & 3 {
                    0 => 256,
                    1 => 320,
                    2 => 512,
                    _ => 640,
                };
                display.horizontal_resolution = if data & 0x40 != 0 {
                    368
                } else {
                    hr
                };
                display.vertical_resolution = if data & 4 != 0 {
                    480
                } else {
                    240
                };
                display.is_pal = data & 8 != 0;
                display.is_24bit = data & 0x10 != 0;
                display.interlaced = data & 0x20 != 0;
                status.raw = (status.raw & !0x7F4000u32) | ((data & 0x3F) << 17) | ((data & 0x40)
                    << 10);
            },
            _ => {},
        }
    }

    /// The words taken on GP0.
    pub fn gp0_words(&self) -> (r: u32)
        ensures
            r == self@.gp0_count,
    {
        self.gp0_count
    }

    /// The words taken on GP1.
    pub fn gp1_words(&self) -> (r: u32)
        ensures
            r == self@.gp1_count,
    {
        self.gp1_count
    }

    /// Restarts both word counts.
    pub fn reset_counts(&mut self)
        ensures
            final(self)@ == (CommandState { gp0_count: 0, gp1_count: 0, ..old(self)@ }),
    {
        self.gp0_count = 0;
        self.gp1_count = 0;
    }

    /// Reads the next word of a video memory transfer.
    pub fn read_data(&mut self, vram: &mut Vram) -> (r: u32)
        requires
            old(vram).wf(),
            old(self)@.wf(),
        ensures
            final(vram)@ == old(vram)@,
            final(self)@.wf(),
            r == old(self)@.data_word(old(vram)@),
            final(self)@ == old(self)@.data_read(old(vram)@),
    {
        match self.state {
            GpuState::VramToCpu { t } => {
                proof {
                    lemma_wrapped_index(t.x, t.current_x, t.y, t.current_y);
                }
                let low: u32 = vram.get_pixel(
                    t.x.wrapping_add(t.current_x),
                    t.y.wrapping_add(t.current_y),
                ) as u32;
                match t.advance() {
                    None => {
                        self.state = GpuState::Idle;
                        low
                    },
                    Some(n) => {
                        proof {
                            lemma_wrapped_index(n.x, n.current_x, n.y, n.current_y);
                        }
                        let high: u32 = vram.get_pixel(
                            n.x.wrapping_add(n.current_x),
                            n.y.wrapping_add(n.current_y),
                        ) as u32;
                        match n.advance() {
                            None => {
                                self.state = GpuState::Idle;
                            },
                            Some(m) => {
                                self.state = GpuState::VramToCpu { t: m };
                            },
                        }
                        low | (high << 16)
                    },
                }
            },
            _ => 0,
        }
    }
}

} // verus!
