//! The display configuration.

use vstd::prelude::*;

verus! {

/// What part of video memory is shown, and in which mode.
#[derive(Clone, Copy)]
pub struct DisplayConfig {
    pub x_start: u16,
    pub y_start: u16,
    pub x_end: u16,
    pub y_end: u16,
    pub display_area_x: u16,
    pub display_area_y: u16,
    pub horizontal_resolution: u16,
    pub vertical_resolution: u16,
    pub is_pal: bool,
    pub is_24bit: bool,
    pub interlaced: bool,
}

impl DisplayConfig {
    /// The configuration after a reset: 320 by 240, NTSC, 15-bit colour.
    pub open spec fn initial() -> DisplayConfig {
        DisplayConfig {
            x_start: 0x200,
            y_start: 0x010,
            x_end: 0xC00,
            y_end: 0x100,
            display_area_x: 0,
            display_area_y: 0,
            horizontal_resolution: 320,
            vertical_resolution: 240,
            is_pal: false,
            is_24bit: false,
            interlaced: false,
        }
    }

    /// The configuration after a reset.
    pub fn new() -> (r: Self)
        ensures
            r == DisplayConfig::initial(),
    {
        DisplayConfig {
            x_start: 0x200,
            y_start: 0x010,
            x_end: 0xC00,
            y_end: 0x100,
            display_area_x: 0,
            display_area_y: 0,
            horizontal_resolution: 320,
            vertical_resolution: 240,
            is_pal: false,
            is_24bit: false,
            interlaced: false,
        }
    }

    /// The visible width in pixels.
    pub fn width(&self) -> (r: u16)
        ensures
            r == self.horizontal_resolution,
    {
        self.horizontal_resolution
    }

    /// The visible height in lines.
    pub fn height(&self) -> (r: u16)
        ensures
            r == self.vertical_resolution,
    {
        self.vertical_resolution
    }
}

} // verus!
