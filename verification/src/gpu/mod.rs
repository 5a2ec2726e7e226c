//! The graphics processor.

pub mod commands;
pub mod coverage;
pub mod display;
pub mod exact_laws;
pub mod picture_laws;
pub mod port_laws;
pub mod rasterizer;
pub mod status;
pub mod transfers;
pub mod triangles;
pub mod vram;

use crate::gpu::commands::{gpu_model, CommandProcessor, CommandState, GpuModel};
use crate::gpu::display::DisplayConfig;
use crate::gpu::status::GpuStatus;
use crate::gpu::vram::{pixel_at, Vram, VRAM_PIXELS};
use vstd::prelude::*;

verus! {

/// The graphics processor with its memory and registers.
pub struct Gpu {
    pub vram: Vram,
    pub status: GpuStatus,
    pub display: DisplayConfig,
    pub command_processor: CommandProcessor,
}

impl View for Gpu {
    type V = GpuModel;

    open spec fn view(&self) -> GpuModel {
        gpu_model(self.vram, self.status, self.display, self.command_processor)
    }
}

/// The number of non-black pixels among the first `n` of row `y` from column `x`.
pub open spec fn nonzero_in_row(v: Seq<u16>, x: int, y: int, n: nat) -> nat
    decreases n,
{
    if n == 0 {
        0
    } else {
        nonzero_in_row(v, x, y, (n - 1) as nat) + (if pixel_at(v, x + n - 1, y) != 0 {
            1nat
        } else {
            0nat
        })
    }
}

/// The number of non-black pixels in the first `n` rows of width `w` at (`x`, `y`).
pub open spec fn nonzero_in_rows(v: Seq<u16>, x: int, y: int, w: nat, n: nat) -> nat
    decreases n,
{
    if n == 0 {
        0
    } else {
        nonzero_in_rows(v, x, y, w, (n - 1) as nat) + nonzero_in_row(v, x, y + n - 1, w)
    }
}

impl GpuModel {
    /// The graphics processor after power-on.
    pub open spec fn initial() -> GpuModel {
        GpuModel {
            vram: Seq::new(VRAM_PIXELS as nat, |i: int| 0u16),
            status: GpuStatus::initial(),
            display: DisplayConfig::initial(),
            cp: CommandState::initial(),
        }
    }
}

impl Gpu {
    pub open spec fn wf(&self) -> bool {
        self@.wf()
    }

    /// The graphics processor after power-on.
    pub fn new() -> (r: Self)
        ensures
            r.wf(),
            r@ == GpuModel::initial(),
    {
        Gpu {
            vram: Vram::new(),
            status: GpuStatus::new(),
            display: DisplayConfig::new(),
            command_processor: CommandProcessor::new(),
        }
    }

    /// Returns to the power-on state.
    pub fn reset(&mut self)
        requires
            old(self).wf(),
        ensures
            final(self).wf(),
            final(self)@ == GpuModel::initial(),
    {
        self.vram.clear();
        self.status = GpuStatus::new();
        self.display = DisplayConfig::new();
        self.command_processor = CommandProcessor::new();
    }

    /// Takes a word on GP0.
    pub fn gp0_write(&mut self, data: u32)
        requires
            old(self).wf(),
        ensures
            final(self).wf(),
            final(self)@ == old(self)@.gp0(data),
    {
        self.command_processor.gp0_write(
            &mut self.vram,
            &mut self.status,
            &mut self.display,
            data,
        );
    }

    /// Takes a word on GP1.
    pub fn gp1_write(&mut self, data: u32)
        requires
            old(self).wf(),
        ensures
            final(self).wf(),
            final(self)@ == old(self)@.gp1(data),
    {
        self.command_processor.gp1_write(
            &mut self.vram,
            &mut self.status,
            &mut self.display,
            data,
        );
    }

    /// Reads the next word of a video memory transfer.
    pub fn read_data(&mut self) -> (r: u32)
        requires
            old(self).wf(),
        ensures
            final(self).wf(),
            r == old(self)@.data_word(),
            final(self)@ == old(self)@.data_read(),
    {
        self.command_processor.read_data(&mut self.vram)
    }

    /// Reads GPUSTAT.
    pub fn read_status(&self) -> (r: u32)
        ensures
            r == self@.status.raw,
    {
        self.status.read()
    }

    /// The words taken on GP0 since the frame counters were last reset, modulo
    /// 2^32.
    pub fn gp0_count(&self) -> (r: u32)
        ensures
            r == self@.cp.gp0_count,
    {
        self.command_processor.gp0_words()
    }

    /// The words taken on GP1 since the frame counters were last reset, modulo
    /// 2^32.
    pub fn gp1_count(&self) -> (r: u32)
        ensures
            r == self@.cp.gp1_count,
    {
        self.command_processor.gp1_words()
    }

    /// Restarts both word counts.
    pub fn reset_frame_counters(&mut self)
        ensures
            final(self)@ == (GpuModel {
                cp: CommandState { gp0_count: 0, gp1_count: 0, ..old(self)@.cp },
                ..old(self)@
            }),
    {
        self.command_processor.reset_counts();
    }

    /// Counts the non-black pixels of an area, as a cheap test whether anything
    /// has been drawn.
    pub fn nonzero_pixel_count(&self, x: u16, y: u16, w: u16, h: u16) -> (r: u32)
        requires
            self.wf(),
            x + w <= u16::MAX,
            y + h <= u16::MAX,
        ensures
            r == nonzero_in_rows(self@.vram, x as int, y as int, w as nat, h as nat),
    {
        let mut count: u32 = 0;
        let mut dy: u16 = 0;
        while dy < h
            invariant
                self.wf(),
                dy <= h,
                x + w <= u16::MAX,
                y + h <= u16::MAX,
                count == nonzero_in_rows(self@.vram, x as int, y as int, w as nat, dy as nat),
                count <= w * dy,
            decreases h - dy,
        {
            let ghost before = count;
            let mut dx: u16 = 0;
            assert(w * dy + w <= 0xFFFF * 0xFFFF) by (nonlinear_arith)
                requires
                    0 <= w <= 0xFFFF,
                    0 <= dy < 0xFFFF,
            ;
            while dx < w
                invariant
                    self.wf(),
                    dx <= w,
                    dy < h,
                    x + w <= u16::MAX,
                    y + h <= u16::MAX,
                    count == before + nonzero_in_row(
                        self@.vram,
                        x as int,
                        y + dy,
                        dx as nat,
                    ),
                    count <= before + dx,
                    before <= w * dy,
                    w * dy + w <= 0xFFFF * 0xFFFF,
                decreases w - dx,
            {
                if self.vram.get_pixel(x + dx, y + dy) != 0 {
                    count = count + 1;
                }
                dx = dx + 1;
            }
            assert(w * (dy + 1) == w * dy + w) by (nonlinear_arith);
            dy = dy + 1;
        }
        count
    }
}

} // verus!
