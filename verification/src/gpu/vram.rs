//! Video memory: 1024 by 512 pixels of 15-bit colour.

use crate::arith::{div_toward_zero, lemma_signed_word, trunc_div};
use vstd::prelude::*;

verus! {

pub const VRAM_WIDTH: usize = 1024;

pub const VRAM_HEIGHT: usize = 512;

pub const VRAM_PIXELS: usize = 524288;

/// Video memory, row by row. Coordinates wrap in both directions.
pub struct Vram {
    pub data: Vec<u16>,
}

impl View for Vram {
    type V = Seq<u16>;

    open spec fn view(&self) -> Seq<u16> {
        self.data@
    }
}

/// Where pixel (`x`, `y`) is stored.
pub open spec fn pixel_index(x: int, y: int) -> int {
    (y % 512) * 1024 + x % 1024
}

/// The pixel at (`x`, `y`).
pub open spec fn pixel_at(v: Seq<u16>, x: int, y: int) -> u16 {
    v[pixel_index(x, y)]
}

/// Video memory with the pixel at (`x`, `y`) set to `color`.
pub open spec fn with_pixel(v: Seq<u16>, x: int, y: int, color: u16) -> Seq<u16> {
    v.update(pixel_index(x, y), color)
}

/// The four bytes that show a 15-bit pixel: red, green, blue, opaque.
pub open spec fn rgba(pixel: u16) -> Seq<u8> {
    seq![
        ((pixel & 0x1F) << 3) as u8,
        (((pixel >> 5) & 0x1F) << 3) as u8,
        (((pixel >> 10) & 0x1F) << 3) as u8,
        0xFFu8,
    ]
}

/// The first `n` pixels of row `y` from column `x`, as bytes.
pub open spec fn rgba_row(v: Seq<u16>, x: int, y: int, n: nat) -> Seq<u8>
    decreases n,
{
    if n == 0 {
        Seq::empty()
    } else {
        rgba_row(v, x, y, (n - 1) as nat) + rgba(pixel_at(v, x + n - 1, y))
    }
}

/// The first `n` rows of the area of width `w` at (`x`, `y`), as bytes.
pub open spec fn rgba_rows(v: Seq<u16>, x: int, y: int, w: nat, n: nat) -> Seq<u8>
    decreases n,
{
    if n == 0 {
        Seq::empty()
    } else {
        rgba_rows(v, x, y, w, (n - 1) as nat) + rgba_row(v, x, y + n - 1, w)
    }
}

pub(crate) proof fn lemma_mask_is_mod(x: u32)
    ensures
        x & 1023 == x % 1024,
        x & 511 == x % 512,
{
    crate::bits::lemma_parts_of(x);
}

/// `n` as a two's complement number, and its low ten and nine bits.
proof fn lemma_signed_mask_is_mod(n: i32)
    ensures
        (n as u32) & 1023 == n as int % 1024,
        (n as u32) & 511 == n as int % 512,
{
    let u = n as u32;
    crate::bits::lemma_unsigned_of(n);
    lemma_mask_is_mod(u);
    lemma_mod_of_shifted(n as int);
}

proof fn lemma_mod_of_shifted(n: int)
    ensures
        (n + 0x1_0000_0000) % 1024 == n % 1024,
        (n + 0x1_0000_0000) % 512 == n % 512,
{
    vstd::arithmetic::div_mod::lemma_mod_multiples_vanish(0x40_0000, n, 1024);
    vstd::arithmetic::div_mod::lemma_mod_multiples_vanish(0x80_0000, n, 512);
}

impl Vram {
    /// The store holds one word for each pixel.
    pub open spec fn wf(&self) -> bool {
        self@.len() == VRAM_PIXELS
    }

    /// Video memory with every pixel black.
    pub fn new() -> (r: Self)
        ensures
            r.wf(),
            r@ == Seq::new(VRAM_PIXELS as nat, |i: int| 0u16),
    {
        Vram { data: vec![0u16; VRAM_PIXELS] }
    }

    /// Makes every pixel black.
    pub fn clear(&mut self)
        requires
            old(self).wf(),
        ensures
            final(self).wf(),
            final(self)@ == Seq::new(VRAM_PIXELS as nat, |i: int| 0u16),
    {
        let mut i: usize = 0;
        while i < VRAM_PIXELS
            invariant
                i <= VRAM_PIXELS,
                self.wf(),
                forall|k: int| 0 <= k < i ==> self@[k] == 0,
            decreases VRAM_PIXELS - i,
        {
            self.data[i] = 0;
            i = i + 1;
        }
    }

    /// The pixel at (`x`, `y`).
    pub fn get_pixel(&self, x: u16, y: u16) -> (r: u16)
        requires
            self.wf(),
        ensures
            r == pixel_at(self@, x as int, y as int),
    {
        proof {
            lemma_mask_is_mod(x as u32);
            lemma_mask_is_mod(y as u32);
        }
        let col: usize = (x as u32 & 1023) as usize;
        let row: usize = (y as u32 & 511) as usize;
        self.data[row * VRAM_WIDTH + col]
    }

    /// Sets the pixel at (`x`, `y`).
    pub fn set_pixel(&mut self, x: u16, y: u16, color: u16)
        requires
            old(self).wf(),
        ensures
            final(self).wf(),
            final(self)@ == with_pixel(old(self)@, x as int, y as int, color),
    {
        proof {
            lemma_mask_is_mod(x as u32);
            lemma_mask_is_mod(y as u32);
        }
        let col: usize = (x as u32 & 1023) as usize;
        let row: usize = (y as u32 & 511) as usize;
        self.data[row * VRAM_WIDTH + col] = color;
    }

    /// Sets a pixel given at `scale` times the native resolution. The upscaled
    /// render target is kept elsewhere; this writes the native pixel.
    pub fn set_pixel_scaled(&mut self, x: i32, y: i32, color: u16, scale: u32)
        requires
            old(self).wf(),
            scale != 0,
            scale == u32::MAX ==> x != i32::MIN && y != i32::MIN,
        ensures
            final(self).wf(),
            final(self)@ == with_pixel(
                old(self)@,
                trunc_div(x as int, scale as i32 as int),
                trunc_div(y as int, scale as i32 as int),
                color,
            ),
    {
        let s: i32 = scale as i32;
        proof {
            lemma_signed_word(scale);
        }
        let nx: i32 = div_toward_zero(x, s);
        let ny: i32 = div_toward_zero(y, s);
        proof {
            lemma_signed_mask_is_mod(nx);
            lemma_signed_mask_is_mod(ny);
        }
        let col: usize = (nx as u32 & 1023) as usize;
        let row: usize = (ny as u32 & 511) as usize;
        self.data[row * VRAM_WIDTH + col] = color;
    }

    /// The area of `width` by `height` pixels at (`x_start`, `y_start`) as RGBA
    /// bytes, row by row.
    pub fn to_rgba8(&self, x_start: u16, y_start: u16, width: u16, height: u16) -> (r: Vec<u8>)
        requires
            self.wf(),
            x_start + width <= u16::MAX,
            y_start + height <= u16::MAX,
        ensures
            r@ == rgba_rows(
                self@,
                x_start as int,
                y_start as int,
                width as nat,
                height as nat,
            ),
    {
        let mut out: Vec<u8> = Vec::new();
        let mut dy: u16 = 0;
        while dy < height
            invariant
                self.wf(),
                dy <= height,
                x_start + width <= u16::MAX,
                y_start + height <= u16::MAX,
                out@ == rgba_rows(
                    self@,
                    x_start as int,
                    y_start as int,
                    width as nat,
                    dy as nat,
                ),
            decreases height - dy,
        {
            let ghost before = out@;
            let mut dx: u16 = 0;
            while dx < width
                invariant
                    self.wf(),
                    dx <= width,
                    dy < height,
                    x_start + width <= u16::MAX,
                    y_start + height <= u16::MAX,
                    out@ == before + rgba_row(
                        self@,
                        x_start as int,
                        y_start + dy,
                        dx as nat,
                    ),
                decreases width - dx,
            {
                let ghost so_far = out@;
                let pixel: u16 = self.get_pixel(x_start + dx, y_start + dy);
                out.push(((pixel & 0x1F) << 3) as u8);
                out.push((((pixel >> 5) & 0x1F) << 3) as u8);
                out.push((((pixel >> 10) & 0x1F) << 3) as u8);
                out.push(0xFF);
                assert(out@ =~= so_far + rgba(pixel));
                dx = dx + 1;
                assert(out@ =~= before + rgba_row(
                    self@,
                    x_start as int,
                    y_start + dy,
                    dx as nat,
                ));
            }
            dy = dy + 1;
        }
        out
    }
}

/// A pixel reads back as it was set, and a different pixel is untouched: two
/// coordinates name the same pixel exactly when they agree modulo 1024 and 512.
pub proof fn law_pixel_read_back(v: Seq<u16>, x: int, y: int, color: u16, px: int, py: int)
    requires
        v.len() == VRAM_PIXELS,
    ensures
        pixel_at(with_pixel(v, x, y, color), px, py) == (if px % 1024 == x % 1024 && py % 512 == y
            % 512 {
            color
        } else {
            pixel_at(v, px, py)
        }),
{
}

/// An area of `w` by `h` pixels takes four bytes for each of them.
pub proof fn law_rgba_length(v: Seq<u16>, x: int, y: int, w: nat, h: nat)
    ensures
        rgba_rows(v, x, y, w, h).len() == 4 * w * h,
    decreases h,
{
    if h > 0 {
        law_rgba_length(v, x, y, w, (h - 1) as nat);
        lemma_rgba_row_length(v, x, y + h - 1, w);
        assert(4 * w * h == 4 * w * (h - 1) + 4 * w) by (nonlinear_arith)
            requires
                h > 0,
        ;
    } else {
        assert(4 * w * 0 == 0) by (nonlinear_arith);
    }
}

proof fn lemma_rgba_row_length(v: Seq<u16>, x: int, y: int, n: nat)
    ensures
        rgba_row(v, x, y, n).len() == 4 * n,
    decreases n,
{
    if n > 0 {
        lemma_rgba_row_length(v, x, y, (n - 1) as nat);
    }
}

} // verus!
