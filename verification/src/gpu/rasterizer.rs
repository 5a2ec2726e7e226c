//! Software rasterizer for the drawing primitives.
//!
//! With `scale` 1 primitives are drawn into video memory directly. With a
//! larger scale every pixel stands for a block of an upscaled target, and
//! texture lookups still read native video memory. Coordinates are 32-bit
//! machine integers throughout and wrap.

use crate::arith::{div_toward_zero, lemma_signed_word, trunc_div};
use crate::gpu::commands::{
    color15, rgb24_to_15, sext11, sign_extend_11, unpack_color, word_color15,
};
use crate::gpu::vram::{pixel_at, with_pixel, Vram};
use vstd::prelude::*;

verus! {

/// Draws at a fixed scale; 1 is native.
pub struct Rasterizer {
    pub scale: u32,
}

/// The part of the picture that may be drawn to, both edges included.
pub struct DrawArea {
    pub left: i32,
    pub top: i32,
    pub right: i32,
    pub bottom: i32,
}

/// How the pixels of a triangle get their colour.
pub enum Shading {
    Flat { pixel: u16 },
    Gouraud { c0: u32, c1: u32, c2: u32 },
}

/// Applies `f` to the first `n` points of row `y` from column `x`, left to right.
pub open spec fn scan_row(
    v: Seq<u16>,
    x: int,
    y: int,
    n: nat,
    f: spec_fn(Seq<u16>, int, int) -> Seq<u16>,
) -> Seq<u16>
    decreases n,
{
    if n == 0 {
        v
    } else {
        f(scan_row(v, x, y, (n - 1) as nat, f), x + n - 1, y)
    }
}

/// Applies `f` to the first `n` rows of width `w` at (`x`, `y`), top to bottom.
pub open spec fn scan(
    v: Seq<u16>,
    x: int,
    y: int,
    w: nat,
    n: nat,
    f: spec_fn(Seq<u16>, int, int) -> Seq<u16>,
) -> Seq<u16>
    decreases n,
{
    if n == 0 {
        v
    } else {
        scan_row(scan(v, x, y, w, (n - 1) as nat, f), x, y + n - 1, w, f)
    }
}

/// The number of integers from `lo` up to but not including `hi`.
pub open spec fn span(lo: int, hi: int) -> nat {
    if lo < hi {
        (hi - lo) as nat
    } else {
        0
    }
}

/// Video memory with a pixel set that is given at `scale` times the native
/// resolution.
pub open spec fn with_scaled(v: Seq<u16>, x: int, y: int, color: u16, scale: u32) -> Seq<u16> {
    with_pixel(
        v,
        trunc_div(x, scale as i32 as int),
        trunc_div(y, scale as i32 as int),
        color,
    )
}

/// Sets the point at offset (`sx`, `sy`) of the block that stands for (`x`, `y`).
pub open spec fn block_point(x: i32, y: i32, color: u16, scale: u32) -> spec_fn(
    Seq<u16>,
    int,
    int,
) -> Seq<u16> {
    |v: Seq<u16>, sx: int, sy: int|
        with_scaled(
            v,
            x.wrapping_mul(scale as i32).wrapping_add(sx as i32) as int,
            y.wrapping_mul(scale as i32).wrapping_add(sy as i32) as int,
            color,
            scale,
        )
}

/// Video memory with the whole block that stands for (`x`, `y`) set.
pub open spec fn painted(v: Seq<u16>, x: i32, y: i32, color: u16, scale: u32) -> Seq<u16> {
    let s = span(0, scale as i32 as int);
    scan(v, 0, 0, s, s, block_point(x, y, color, scale))
}

/// A vertex word: two 11-bit signed coordinates, moved by the drawing offset.
pub open spec fn vertex(word: u32, offset: (i16, i16)) -> (i32, i32) {
    ((sext11(word) + offset.0) as i32, (sext11(word >> 16) + offset.1) as i32)
}

/// Twice the signed area of the triangle `a`, `b`, `c`.
pub open spec fn edge_area(a: (i32, i32), b: (i32, i32), c: (i32, i32)) -> i32 {
    b.0.wrapping_sub(a.0).wrapping_mul(c.1.wrapping_sub(a.1)).wrapping_sub(
        b.1.wrapping_sub(a.1).wrapping_mul(c.0.wrapping_sub(a.0)),
    )
}

pub open spec fn max3(a: i32, b: i32, c: i32) -> i32 {
    let m = if a >= b {
        a
    } else {
        b
    };
    if m >= c {
        m
    } else {
        c
    }
}

pub open spec fn min3(a: i32, b: i32, c: i32) -> i32 {
    let m = if a <= b {
        a
    } else {
        b
    };
    if m <= c {
        m
    } else {
        c
    }
}

/// One colour channel mixed with 12-bit weights.
pub open spec fn mixed(c0: u8, c1: u8, c2: u8, w0: i32, w1: i32, w2: i32) -> u8 {
    let sum = (c0 as i32).wrapping_mul(w0).wrapping_add((c1 as i32).wrapping_mul(w1)).wrapping_add(
        (c2 as i32).wrapping_mul(w2),
    ) >> 12;
    if sum < 0 {
        0
    } else if sum > 255 {
        255
    } else {
        sum as u8
    }
}

impl Shading {
    /// The colour at the given 12-bit weights of the three vertices.
    pub open spec fn color(self, w0: i32, w1: i32, w2: i32) -> u16 {
        match self {
            Shading::Flat { pixel } => pixel,
            Shading::Gouraud { c0, c1, c2 } => color15(
                mixed((c0 & 0xFF) as u8, (c1 & 0xFF) as u8, (c2 & 0xFF) as u8, w0, w1, w2),
                mixed(
                    ((c0 >> 8) & 0xFF) as u8,
                    ((c1 >> 8) & 0xFF) as u8,
                    ((c2 >> 8) & 0xFF) as u8,
                    w0,
                    w1,
                    w2,
                ),
                mixed(
                    ((c0 >> 16) & 0xFF) as u8,
                    ((c1 >> 16) & 0xFF) as u8,
                    ((c2 >> 16) & 0xFF) as u8,
                    w0,
                    w1,
                    w2,
                ),
            ),
        }
    }

    /// The shading of a triangle whose last two vertices have been swapped, if
    /// `area` is negative: the colours stay with their vertices.
    pub open spec fn arranged(self, area: i32) -> Shading {
        match self {
            Shading::Gouraud { c0, c1, c2 } if area < 0 => Shading::Gouraud { c0, c1: c2, c2: c1 },
            _ => self,
        }
    }

    fn arrange(self, area: i32) -> (r: Shading)
        ensures
            r == self.arranged(area),
    {
        match self {
            Shading::Gouraud { c0, c1, c2 } if area < 0 => Shading::Gouraud { c0, c1: c2, c2: c1 },
            _ => self,
        }
    }

    fn pixel(&self, w0: i32, w1: i32, w2: i32) -> (r: u16)
        ensures
            r == self.color(w0, w1, w2),
    {
        match *self {
            Shading::Flat { pixel } => pixel,
            Shading::Gouraud { c0, c1, c2 } => {
                let (r0, g0, b0) = unpack_color(c0);
                let (r1, g1, b1) = unpack_color(c1);
                let (r2, g2, b2) = unpack_color(c2);
                rgb24_to_15(
                    mix(r0, r1, r2, w0, w1, w2),
                    mix(g0, g1, g2, w0, w1, w2),
                    mix(b0, b1, b2, w0, w1, w2),
                )
            },
        }
    }
}

/// A triangle whose vertices run so that its area is not negative.
pub struct Wound {
    pub p0: (i32, i32),
    pub p1: (i32, i32),
    pub p2: (i32, i32),
    pub area: i32,
}

/// The triangle with its last two vertices swapped if its area is negative.
pub open spec fn wound(p0: (i32, i32), p1: (i32, i32), p2: (i32, i32)) -> Wound {
    let area = edge_area(p0, p1, p2);
    if area < 0 {
        Wound { p0, p1: p2, p2: p1, area: 0i32.wrapping_sub(area) }
    } else {
        Wound { p0, p1, p2, area }
    }
}

impl Wound {
    /// Whether a point lies on the inner side of all three edges.
    pub open spec fn covers(self, x: i32, y: i32) -> bool {
        &&& edge_area(self.p1, self.p2, (x, y)) >= 0
        &&& edge_area(self.p2, self.p0, (x, y)) >= 0
        &&& edge_area(self.p0, self.p1, (x, y)) >= 0
    }

    /// The 12-bit weight of the first vertex at a point.
    pub open spec fn weight0(self, x: i32, y: i32) -> i32 {
        trunc_div(
            edge_area(self.p1, self.p2, (x, y)).wrapping_mul(4096) as int,
            self.area as int,
        ) as i32
    }

    /// The 12-bit weight of the second vertex at a point.
    pub open spec fn weight1(self, x: i32, y: i32) -> i32 {
        trunc_div(
            edge_area(self.p2, self.p0, (x, y)).wrapping_mul(4096) as int,
            self.area as int,
        ) as i32
    }
}

impl Wound {
    /// The colour of a point: the colours of the vertices, mixed by the weights
    /// that the vertices have there.
    pub open spec fn shade(self, shading: Shading, x: i32, y: i32) -> u16 {
        let w0 = self.weight0(x, y);
        let w1 = self.weight1(x, y);
        shading.color(w0, w1, 4096i32.wrapping_sub(w0).wrapping_sub(w1))
    }
}

/// Paints a point of a triangle if the triangle covers it.
pub open spec fn triangle_point(t: Wound, shading: Shading, scale: u32) -> spec_fn(
    Seq<u16>,
    int,
    int,
) -> Seq<u16> {
    |v: Seq<u16>, x: int, y: int|
        if t.covers(x as i32, y as i32) {
            painted(v, x as i32, y as i32, t.shade(shading, x as i32, y as i32), scale)
        } else {
            v
        }
}

/// Video memory with a triangle drawn. The bounding box is cut to the draw
/// area; a triangle without area, and one whose box is wider than 1024 or
/// higher than 512, is not drawn.
pub open spec fn triangle_drawn(
    v: Seq<u16>,
    area: DrawArea,
    p0: (i32, i32),
    p1: (i32, i32),
    p2: (i32, i32),
    shading: Shading,
    scale: u32,
) -> Seq<u16> {
    let min_x = max3(min3(p0.0, p1.0, p2.0), area.left, area.left);
    let max_x = min3(max3(p0.0, p1.0, p2.0), area.right, area.right);
    let min_y = max3(min3(p0.1, p1.1, p2.1), area.top, area.top);
    let max_y = min3(max3(p0.1, p1.1, p2.1), area.bottom, area.bottom);
    if edge_area(p0, p1, p2) == 0 || max_x - min_x > 1024 || max_y - min_y > 512 {
        v
    } else {
        scan(
            v,
            min_x as int,
            min_y as int,
            span(min_x as int, max_x + 1),
            span(min_y as int, max_y + 1),
            triangle_point(
                wound(p0, p1, p2),
                shading.arranged(edge_area(p0, p1, p2)),
                scale,
            ),
        )
    }
}

/// Video memory with a flat-shaded triangle drawn.
pub open spec fn flat_triangle_drawn(
    v: Seq<u16>,
    color: u32,
    v0: u32,
    v1: u32,
    v2: u32,
    area: DrawArea,
    offset: (i16, i16),
    scale: u32,
) -> Seq<u16> {
    triangle_drawn(
        v,
        area,
        vertex(v0, offset),
        vertex(v1, offset),
        vertex(v2, offset),
        Shading::Flat { pixel: word_color15(color) },
        scale,
    )
}

/// Video memory with a triangle drawn that has a colour for each vertex.
pub open spec fn shaded_triangle_drawn(
    v: Seq<u16>,
    a: (u32, u32),
    b: (u32, u32),
    c: (u32, u32),
    area: DrawArea,
    offset: (i16, i16),
    scale: u32,
) -> Seq<u16> {
    triangle_drawn(
        v,
        area,
        vertex(a.1, offset),
        vertex(b.1, offset),
        vertex(c.1, offset),
        Shading::Gouraud { c0: a.0, c1: b.0, c2: c.0 },
        scale,
    )
}

/// Video memory with a flat-shaded quad drawn: the triangle of its first three corners,
/// then that of its last three.
pub open spec fn flat_quad_drawn(
    v: Seq<u16>,
    color: u32,
    corners: (u32, u32, u32, u32),
    area: DrawArea,
    offset: (i16, i16),
    scale: u32,
) -> Seq<u16> {
    let (v0, v1, v2, v3) = corners;
    let first = flat_triangle_drawn(v, color, v0, v1, v2, area, offset, scale);
    flat_triangle_drawn(first, color, v1, v2, v3, area, offset, scale)
}

/// Video memory with a quad drawn that has a colour for each corner, likewise.
pub open spec fn shaded_quad_drawn(
    v: Seq<u16>,
    corners: ((u32, u32), (u32, u32), (u32, u32), (u32, u32)),
    area: DrawArea,
    offset: (i16, i16),
    scale: u32,
) -> Seq<u16> {
    let (a, b, c, d) = corners;
    let first = shaded_triangle_drawn(v, a, b, c, area, offset, scale);
    shaded_triangle_drawn(first, b, c, d, area, offset, scale)
}

/// Sets a point of an upscaled rectangle.
pub open spec fn fill_point(pixel: u16, scale: u32) -> spec_fn(Seq<u16>, int, int) -> Seq<u16> {
    |v: Seq<u16>, x: int, y: int| with_scaled(v, x, y, pixel, scale)
}

/// The column at which the rectangle of a fill begins.
pub open spec fn fill_x(xy: u32) -> i32 {
    (xy & 0x3F0) as i32
}

/// The row at which the rectangle of a fill begins.
pub open spec fn fill_y(xy: u32) -> i32 {
    ((xy >> 16) & 0x1FF) as i32
}

/// The width of a fill, rounded up to a multiple of sixteen.
pub open spec fn fill_w(wh: u32) -> i32 {
    ((wh & 0x3FF) as i32 + 0xF) as i32 & !0xFi32
}

/// The height of a fill.
pub open spec fn fill_h(wh: u32) -> i32 {
    ((wh >> 16) & 0x1FF) as i32
}

/// Video memory with a rectangle filled, point by point of the upscaled
/// rectangle.
pub open spec fn rect_filled(v: Seq<u16>, color: u32, xy: u32, wh: u32, scale: u32) -> Seq<u16> {
    let s = scale as i32;
    let x0 = fill_x(xy).wrapping_mul(s) as int;
    let y0 = fill_y(xy).wrapping_mul(s) as int;
    let x1 = ((fill_x(xy) + fill_w(wh)) as i32).wrapping_mul(s) as int;
    let y1 = ((fill_y(xy) + fill_h(wh)) as i32).wrapping_mul(s) as int;
    scan(v, x0, y0, span(x0, x1), span(y0, y1), fill_point(word_color15(color), scale))
}

/// Paints a point of a rectangle at (`x0`, `y0`) if it lies in the draw area.
pub open spec fn rect_point(area: DrawArea, x0: i32, y0: i32, pixel: u16, scale: u32) -> spec_fn(
    Seq<u16>,
    int,
    int,
) -> Seq<u16> {
    |v: Seq<u16>, dx: int, dy: int|
        {
            let px = x0.wrapping_add(dx as i32);
            let py = y0.wrapping_add(dy as i32);
            if area.inside(px, py) {
                painted(v, px, py, pixel, scale)
            } else {
                v
            }
        }
}

/// Where a texture and its palette lie, and how many bits a texel has.
pub struct Texture {
    pub tp_x: u16,
    pub tp_y: u16,
    pub clut_x: u16,
    pub clut_y: u16,
    pub depth: u32,
}

impl Texture {
    /// The texture of a texture-coordinate word and a texture page word.
    pub open spec fn of(uv_clut: u32, texpage: u32) -> Texture {
        Texture {
            tp_x: (((texpage & 0xF) * 64) as u32) as u16,
            tp_y: ((((texpage >> 4) & 1) * 256) as u32) as u16,
            clut_x: ((((uv_clut >> 16) & 0x3F) * 16) as u32) as u16,
            clut_y: ((uv_clut >> 22) & 0x1FF) as u16,
            depth: (texpage >> 7) & 3,
        }
    }

    /// The position lies inside video memory.
    pub open spec fn wf(self) -> bool {
        self.tp_x <= 960 && self.tp_y <= 256 && self.clut_x <= 1008 && self.clut_y <= 511
    }

    /// The texel at (`u`, `v`): a 4-bit or 8-bit palette index packed into
    /// video memory words, or a direct colour.
    pub open spec fn texel(self, vram: Seq<u16>, u: u16, v: u16) -> u16 {
        if self.depth == 0 {
            let raw = pixel_at(vram, self.tp_x + u / 4, self.tp_y + v);
            let index = (raw >> (((u & 3) * 4) as u16)) & 0xF;
            pixel_at(vram, self.clut_x + index, self.clut_y as int)
        } else if self.depth == 1 {
            let raw = pixel_at(vram, self.tp_x + u / 2, self.tp_y + v);
            let index = (raw >> (((u & 1) * 8) as u16)) & 0xFF;
            pixel_at(vram, self.clut_x + index, self.clut_y as int)
        } else if self.depth == 2 || self.depth == 3 {
            pixel_at(vram, self.tp_x + u, self.tp_y + v)
        } else {
            0
        }
    }
}

/// Paints a point of a textured rectangle if it lies in the draw area and its
/// texel is not transparent.
pub open spec fn texture_point(
    area: DrawArea,
    x0: i32,
    y0: i32,
    u0: i32,
    v0: i32,
    tex: Texture,
    scale: u32,
) -> spec_fn(Seq<u16>, int, int) -> Seq<u16> {
    |v: Seq<u16>, dx: int, dy: int|
        {
            let px = x0.wrapping_add(dx as i32);
            let py = y0.wrapping_add(dy as i32);
            let texel = tex.texel(
                v,
                (u0.wrapping_add(dx as i32) & 0xFF) as u16,
                (v0.wrapping_add(dy as i32) & 0xFF) as u16,
            );
            if area.inside(px, py) && texel != 0 {
                painted(v, px, py, texel, scale)
            } else {
                v
            }
        }
}

/// Video memory with a flat rectangle drawn.
pub open spec fn flat_rect_drawn(
    v: Seq<u16>,
    color: u32,
    corner: u32,
    w: i32,
    h: i32,
    area: DrawArea,
    offset: (i16, i16),
    scale: u32,
) -> Seq<u16> {
    let (x0, y0) = vertex(corner, offset);
    scan(
        v,
        0,
        0,
        span(0, w as int),
        span(0, h as int),
        rect_point(area, x0, y0, word_color15(color), scale),
    )
}

/// Video memory with a textured rectangle drawn.
pub open spec fn textured_rect_drawn(
    v: Seq<u16>,
    corner: u32,
    uv_clut: u32,
    w: i32,
    h: i32,
    texpage: u32,
    area: DrawArea,
    offset: (i16, i16),
    scale: u32,
) -> Seq<u16> {
    let (x0, y0) = vertex(corner, offset);
    scan(
        v,
        0,
        0,
        span(0, w as int),
        span(0, h as int),
        texture_point(
            area,
            x0,
            y0,
            (uv_clut & 0xFF) as i32,
            ((uv_clut >> 8) & 0xFF) as i32,
            Texture::of(uv_clut, texpage),
            scale,
        ),
    )
}

impl DrawArea {
    /// Whether a point lies in the area.
    pub open spec fn inside(self, x: i32, y: i32) -> bool {
        self.left <= x <= self.right && self.top <= y <= self.bottom
    }

    /// Whether a point lies in the area.
    pub fn contains(&self, x: i32, y: i32) -> (r: bool)
        ensures
            r == self.inside(x, y),
    {
        x >= self.left && x <= self.right && y >= self.top && y <= self.bottom
    }
}

/// Mixes one colour channel with 12-bit weights.
fn mix(c0: u8, c1: u8, c2: u8, w0: i32, w1: i32, w2: i32) -> (r: u8)
    ensures
        r == mixed(c0, c1, c2, w0, w1, w2),
{
    let sum: i32 = (c0 as i32).wrapping_mul(w0).wrapping_add(
        (c1 as i32).wrapping_mul(w1),
    ).wrapping_add((c2 as i32).wrapping_mul(w2)) >> 12;
    if sum < 0 {
        0
    } else if sum > 255 {
        255
    } else {
        sum as u8
    }
}

fn larger(a: i32, b: i32) -> (r: i32)
    ensures
        r == (if a >= b {
            a
        } else {
            b
        }),
{
    if a >= b {
        a
    } else {
        b
    }
}

fn smaller(a: i32, b: i32) -> (r: i32)
    ensures
        r == (if a <= b {
            a
        } else {
            b
        }),
{
    if a <= b {
        a
    } else {
        b
    }
}

/// Reads a vertex word and applies the drawing offset.
fn unpack_vertex(word: u32, ox: i16, oy: i16) -> (r: (i32, i32))
    ensures
        r == vertex(word, (ox, oy)),
        -34000 < r.0 < 34000,
        -34000 < r.1 < 34000,
{
    (sign_extend_11(word) as i32 + ox as i32, sign_extend_11(word >> 16) as i32 + oy as i32)
}

/// Twice the signed area of the triangle `a`, `b`, `c`.
fn edge(a: (i32, i32), b: (i32, i32), c: (i32, i32)) -> (r: i32)
    ensures
        r == edge_area(a, b, c),
{
    b.0.wrapping_sub(a.0).wrapping_mul(c.1.wrapping_sub(a.1)).wrapping_sub(
        b.1.wrapping_sub(a.1).wrapping_mul(c.0.wrapping_sub(a.0)),
    )
}

/// Sets the whole block that stands for (`x`, `y`).
fn paint(vram: &mut Vram, x: i32, y: i32, color: u16, scale: u32)
    requires
        old(vram).wf(),
    ensures
        final(vram).wf(),
        final(vram)@ == painted(old(vram)@, x, y, color, scale),
{
    let s: i32 = scale as i32;
    let ghost before = vram@;
    let ghost n = span(0, s as int);
    let ghost f = block_point(x, y, color, scale);
    proof {
        lemma_signed_word(scale);
    }
    let mut sy: i32 = 0;
    while sy < s
        invariant
            vram.wf(),
            s == scale as i32,
            s > 0 ==> s == scale,
            n == span(0, s as int),
            f == block_point(x, y, color, scale),
            0 <= sy <= n,
            vram@ == scan(before, 0, 0, n, sy as nat, f),
        decreases n - sy,
    {
        let ghost row = vram@;
        let mut sx: i32 = 0;
        while sx < s
            invariant
                vram.wf(),
                s == scale as i32,
                s == scale,
                n == s,
                f == block_point(x, y, color, scale),
                0 <= sx <= s,
                0 <= sy < s,
                vram@ == scan_row(row, 0, sy as int, sx as nat, f),
            decreases s - sx,
        {
            vram.set_pixel_scaled(
                x.wrapping_mul(s).wrapping_add(sx),
                y.wrapping_mul(s).wrapping_add(sy),
                color,
                scale,
            );
            sx = sx + 1;
        }
        sy = sy + 1;
    }
}

/// Reads the texel at (`u`, `v`).
fn sample_texture(vram: &Vram, tex: &Texture, u: u16, v: u16) -> (r: u16)
    requires
        vram.wf(),
        tex.wf(),
        u <= 255,
        v <= 255,
    ensures
        r == tex.texel(vram@, u, v),
{
    proof {
        lemma_texel_index(u);
    }
    match tex.depth {
        0 => {
            let raw: u16 = vram.get_pixel(tex.tp_x + u / 4, tex.tp_y + v);
            let index: u16 = (raw >> ((u & 3) * 4)) & 0xF;
            proof {
                lemma_and_le_16(raw >> (((u & 3) * 4) as u16), 0xF);
            }
            vram.get_pixel(tex.clut_x + index, tex.clut_y)
        },
        1 => {
            let raw: u16 = vram.get_pixel(tex.tp_x + u / 2, tex.tp_y + v);
            let index: u16 = (raw >> ((u & 1) * 8)) & 0xFF;
            proof {
                lemma_and_le_16(raw >> (((u & 1) * 8) as u16), 0xFF);
            }
            vram.get_pixel(tex.clut_x + index, tex.clut_y)
        },
        2 | 3 => vram.get_pixel(tex.tp_x + u, tex.tp_y + v),
        _ => 0,
    }
}

proof fn lemma_and_le_16(a: u16, b: u16)
    ensures
        a & b <= b,
{
    crate::bits::lemma_half_of(a, b);
}

proof fn lemma_texel_index(u: u16)
    ensures
        u & 3 <= 3,
        u & 1 <= 1,
{
    lemma_and_le_16(u, 3);
    lemma_and_le_16(u, 1);
}

proof fn lemma_texture_of(uv_clut: u32, texpage: u32)
    ensures
        Texture::of(uv_clut, texpage).wf(),
        texpage & 0xF <= 15,
        (texpage >> 4) & 1 <= 1,
        (uv_clut >> 16) & 0x3F <= 63,
{
    crate::bits::lemma_parts_of(texpage);
    crate::bits::lemma_parts_of(uv_clut);
}

proof fn lemma_low_byte(n: i32)
    ensures
        0 <= n & 0xFF <= 255,
{
    crate::bits::lemma_coordinate_of(n);
}

impl Rasterizer {
    /// A rasterizer for the given scale, at least 1.
    pub fn new(scale: u32) -> (r: Self)
        ensures
            r.scale == (if scale == 0 {
                1
            } else {
                scale
            }),
    {
        Rasterizer {
            scale: if scale == 0 {
                1
            } else {
                scale
            },
        }
    }

    /// Fills a rectangle, ignoring the draw area (GP0 0x02).
    pub fn fill_rect(&self, vram: &mut Vram, color: u32, xy: u32, wh: u32)
        requires
            old(vram).wf(),
        ensures
            final(vram).wf(),
            final(vram)@ == rect_filled(old(vram)@, color, xy, wh, self.scale),
    {
        let (r, g, b) = unpack_color(color);
        let pixel: u16 = rgb24_to_15(r, g, b);
        proof {
            lemma_fill_size(xy, wh);
            lemma_signed_word(self.scale);
        }
        let x: i32 = (xy & 0x3F0) as i32;
        let y: i32 = ((xy >> 16) & 0x1FF) as i32;
        let w: i32 = ((wh & 0x3FF) as i32 + 0xF) & !0xFi32;
        let h: i32 = ((wh >> 16) & 0x1FF) as i32;
        let s: i32 = self.scale as i32;
        let x0: i32 = x.wrapping_mul(s);
        let y0: i32 = y.wrapping_mul(s);
        let x1: i32 = (x + w).wrapping_mul(s);
        let y1: i32 = (y + h).wrapping_mul(s);
        proof {
            if self.scale == u32::MAX {
                lemma_negated(y);
                lemma_negated((y + h) as i32);
            }
            if self.scale == 0 {
                lemma_zeroed(y);
                lemma_zeroed((y + h) as i32);
            }
        }
        let ghost before = vram@;
        let ghost f = fill_point(pixel, self.scale);
        let ghost n = span(x0 as int, x1 as int);
        let mut py: i32 = y0;
        while py < y1
            invariant
                vram.wf(),
                f == fill_point(pixel, self.scale),
                n == span(x0 as int, x1 as int),
                y0 <= py <= y0 + span(y0 as int, y1 as int),
                self.scale == 0 || self.scale == u32::MAX ==> y1 <= y0,
                vram@ == scan(before, x0 as int, y0 as int, n, (py - y0) as nat, f),
            decreases y1 - py,
        {
            let ghost row = vram@;
            let mut px: i32 = x0;
            while px < x1
                invariant
                    vram.wf(),
                    f == fill_point(pixel, self.scale),
                    n == span(x0 as int, x1 as int),
                    x0 <= px <= x0 + n,
                    self.scale != 0 && self.scale != u32::MAX,
                    vram@ == scan_row(row, x0 as int, py as int, (px - x0) as nat, f),
                decreases x1 - px,
            {
                vram.set_pixel_scaled(px, py, pixel, self.scale);
                px = px + 1;
            }
            py = py + 1;
        }
    }

    /// Draws a flat-shaded triangle.
    pub fn flat_triangle(
        &self,
        vram: &mut Vram,
        color: u32,
        v0: u32,
        v1: u32,
        v2: u32,
        draw_area: &DrawArea,
        offset: (i16, i16),
    )
        requires
            old(vram).wf(),
        ensures
            final(vram).wf(),
            final(vram)@ == flat_triangle_drawn(
                old(vram)@,
                color,
                v0,
                v1,
                v2,
                *draw_area,
                offset,
                self.scale,
            ),
    {
        let (r, g, b) = unpack_color(color);
        let pixel: u16 = rgb24_to_15(r, g, b);
        let p0: (i32, i32) = unpack_vertex(v0, offset.0, offset.1);
        let p1: (i32, i32) = unpack_vertex(v1, offset.0, offset.1);
        let p2: (i32, i32) = unpack_vertex(v2, offset.0, offset.1);
        self.rasterize_triangle(vram, draw_area, p0, p1, p2, Shading::Flat { pixel });
    }

    /// Draws a flat-shaded quad as two triangles.
    pub fn flat_quad(
        &self,
        vram: &mut Vram,
        color: u32,
        v0: u32,
        v1: u32,
        v2: u32,
        v3: u32,
        draw_area: &DrawArea,
        offset: (i16, i16),
    )
        requires
            old(vram).wf(),
        ensures
            final(vram).wf(),
            final(vram)@ == flat_quad_drawn(
                old(vram)@,
                color,
                (v0, v1, v2, v3),
                *draw_area,
                offset,
                self.scale,
            ),
    {
        self.flat_triangle(vram, color, v0, v1, v2, draw_area, offset);
        self.flat_triangle(vram, color, v1, v2, v3, draw_area, offset);
    }

    /// Draws a triangle with a colour for each vertex, mixed in between. The
    /// vertices may run either way round.
    pub fn gouraud_triangle(
        &self,
        vram: &mut Vram,
        c0: u32,
        v0: u32,
        c1: u32,
        v1: u32,
        c2: u32,
        v2: u32,
        draw_area: &DrawArea,
        offset: (i16, i16),
    )
        requires
            old(vram).wf(),
        ensures
            final(vram).wf(),
            final(vram)@ == shaded_triangle_drawn(
                old(vram)@,
                (c0, v0),
                (c1, v1),
                (c2, v2),
                *draw_area,
                offset,
                self.scale,
            ),
    {
        let p0: (i32, i32) = unpack_vertex(v0, offset.0, offset.1);
        let p1: (i32, i32) = unpack_vertex(v1, offset.0, offset.1);
        let p2: (i32, i32) = unpack_vertex(v2, offset.0, offset.1);
        self.rasterize_triangle(vram, draw_area, p0, p1, p2, Shading::Gouraud { c0, c1, c2 });
    }

    /// Draws a quad with a colour for each vertex as two triangles.
    pub fn gouraud_quad(
        &self,
        vram: &mut Vram,
        c0: u32,
        v0: u32,
        c1: u32,
        v1: u32,
        c2: u32,
        v2: u32,
        c3: u32,
        v3: u32,
        draw_area: &DrawArea,
        offset: (i16, i16),
    )
        requires
            old(vram).wf(),
        ensures
            final(vram).wf(),
            final(vram)@ == shaded_quad_drawn(
                old(vram)@,
                ((c0, v0), (c1, v1), (c2, v2), (c3, v3)),
                *draw_area,
                offset,
                self.scale,
            ),
    {
        self.gouraud_triangle(vram, c0, v0, c1, v1, c2, v2, draw_area, offset);
        self.gouraud_triangle(vram, c1, v1, c2, v2, c3, v3, draw_area, offset);
    }

    /// Draws a flat rectangle inside the draw area (GP0 0x60 to 0x7F).
    pub fn flat_rect(
        &self,
        vram: &mut Vram,
        color: u32,
        vertex: u32,
        size_w: i32,
        size_h: i32,
        draw_area: &DrawArea,
        offset: (i16, i16),
    )
        requires
            old(vram).wf(),
        ensures
            final(vram).wf(),
            final(vram)@ == flat_rect_drawn(
                old(vram)@,
                color,
                vertex,
                size_w,
                size_h,
                *draw_area,
                offset,
                self.scale,
            ),
    {
        let (r, g, b) = unpack_color(color);
        let pixel: u16 = rgb24_to_15(r, g, b);
        let (x0, y0) = unpack_vertex(vertex, offset.0, offset.1);
        let ghost before = vram@;
        let ghost f = rect_point(*draw_area, x0, y0, pixel, self.scale);
        let ghost n = span(0, size_w as int);
        let mut dy: i32 = 0;
        while dy < size_h
            invariant
                vram.wf(),
                f == rect_point(*draw_area, x0, y0, pixel, self.scale),
                n == span(0, size_w as int),
                0 <= dy <= span(0, size_h as int),
                vram@ == scan(before, 0, 0, n, dy as nat, f),
            decreases size_h - dy,
        {
            let ghost row = vram@;
            let mut dx: i32 = 0;
            while dx < size_w
                invariant
                    vram.wf(),
                    f == rect_point(*draw_area, x0, y0, pixel, self.scale),
                    n == span(0, size_w as int),
                    0 <= dx <= n,
                    vram@ == scan_row(row, 0, dy as int, dx as nat, f),
                decreases size_w - dx,
            {
                let px: i32 = x0.wrapping_add(dx);
                let py: i32 = y0.wrapping_add(dy);
                if draw_area.contains(px, py) {
                    paint(vram, px, py, pixel, self.scale);
                }
                dx = dx + 1;
            }
            dy = dy + 1;
        }
    }

    /// Draws a textured rectangle inside the draw area; texel 0 is transparent.
    pub fn textured_rect(
        &self,
        vram: &mut Vram,
        _color: u32,
        vertex: u32,
        uv_clut: u32,
        size_w: i32,
        size_h: i32,
        texpage: u32,
        draw_area: &DrawArea,
        offset: (i16, i16),
    )
        requires
            old(vram).wf(),
        ensures
            final(vram).wf(),
            final(vram)@ == textured_rect_drawn(
                old(vram)@,
                vertex,
                uv_clut,
                size_w,
                size_h,
                texpage,
                *draw_area,
                offset,
                self.scale,
            ),
    {
        let (x0, y0) = unpack_vertex(vertex, offset.0, offset.1);
        let u0: i32 = (uv_clut & 0xFF) as i32;
        let v0: i32 = ((uv_clut >> 8) & 0xFF) as i32;
        proof {
            lemma_texture_of(uv_clut, texpage);
        }
        let tex: Texture = Texture {
            tp_x: ((texpage & 0xF) * 64) as u16,
            tp_y: (((texpage >> 4) & 1) * 256) as u16,
            clut_x: (((uv_clut >> 16) & 0x3F) * 16) as u16,
            clut_y: ((uv_clut >> 22) & 0x1FF) as u16,
            depth: (texpage >> 7) & 3,
        };
        let ghost before = vram@;
        let ghost f = texture_point(*draw_area, x0, y0, u0, v0, tex, self.scale);
        let ghost n = span(0, size_w as int);
        let mut dy: i32 = 0;
        while dy < size_h
            invariant
                vram.wf(),
                tex.wf(),
                f == texture_point(*draw_area, x0, y0, u0, v0, tex, self.scale),
                n == span(0, size_w as int),
                0 <= dy <= span(0, size_h as int),
                vram@ == scan(before, 0, 0, n, dy as nat, f),
            decreases size_h - dy,
        {
            let ghost row = vram@;
            let mut dx: i32 = 0;
            while dx < size_w
                invariant
                    vram.wf(),
                    tex.wf(),
                    f == texture_point(*draw_area, x0, y0, u0, v0, tex, self.scale),
                    n == span(0, size_w as int),
                    0 <= dx <= n,
                    vram@ == scan_row(row, 0, dy as int, dx as nat, f),
                decreases size_w - dx,
            {
                let px: i32 = x0.wrapping_add(dx);
                let py: i32 = y0.wrapping_add(dy);
                if draw_area.contains(px, py) {
                    proof {
                        lemma_low_byte(u0.wrapping_add(dx));
                        lemma_low_byte(v0.wrapping_add(dy));
                    }
                    let u: u16 = (u0.wrapping_add(dx) & 0xFF) as u16;
                    let v: u16 = (v0.wrapping_add(dy) & 0xFF) as u16;
                    let texel: u16 = sample_texture(vram, &tex, u, v);
                    if texel != 0 {
                        paint(vram, px, py, texel, self.scale);
                    }
                }
                dx = dx + 1;
            }
            dy = dy + 1;
        }
    }

    /// Draws a triangle point by point, weighting the vertices by the areas
    /// opposite to them.
    fn rasterize_triangle(
        &self,
        vram: &mut Vram,
        draw_area: &DrawArea,
        p0: (i32, i32),
        p1: (i32, i32),
        p2: (i32, i32),
        shading: Shading,
    )
        requires
            old(vram).wf(),
            -34000 < p0.0 < 34000,
            -34000 < p0.1 < 34000,
            -34000 < p1.0 < 34000,
            -34000 < p1.1 < 34000,
            -34000 < p2.0 < 34000,
            -34000 < p2.1 < 34000,
        ensures
            final(vram).wf(),
            final(vram)@ == triangle_drawn(
                old(vram)@,
                *draw_area,
                p0,
                p1,
                p2,
                shading,
                self.scale,
            ),
    {
        let min_x: i32 = larger(smaller(smaller(p0.0, p1.0), p2.0), draw_area.left);
        let max_x: i32 = smaller(larger(larger(p0.0, p1.0), p2.0), draw_area.right);
        let min_y: i32 = larger(smaller(smaller(p0.1, p1.1), p2.1), draw_area.top);
        let max_y: i32 = smaller(larger(larger(p0.1, p1.1), p2.1), draw_area.bottom);
        let area: i32 = edge(p0, p1, p2);
        if area == 0 {
            return ;
        }
        if max_x as i64 - min_x as i64 > 1024 || max_y as i64 - min_y as i64 > 512 {
            return ;
        }
        let t: Wound = if area < 0 {
            Wound { p0, p1: p2, p2: p1, area: 0i32.wrapping_sub(area) }
        } else {
            Wound { p0, p1, p2, area }
        };
        let shading: Shading = shading.arrange(area);
        let ghost before = vram@;
        let ghost f = triangle_point(t, shading, self.scale);
        let ghost n = span(min_x as int, max_x + 1);
        let mut y: i32 = min_y;
        while y <= max_y
            invariant
                vram.wf(),
                t.area > 0 || t.area == i32::MIN,
                f == triangle_point(t, shading, self.scale),
                n == span(min_x as int, max_x + 1),
                max_x < 34000,
                max_y < 34000,
                min_y <= y <= min_y + span(min_y as int, max_y + 1),
                vram@ == scan(before, min_x as int, min_y as int, n, (y - min_y) as nat, f),
            decreases max_y + 1 - y,
        {
            let ghost row = vram@;
            let mut x: i32 = min_x;
            while x <= max_x
                invariant
                    vram.wf(),
                    t.area > 0 || t.area == i32::MIN,
                    f == triangle_point(t, shading, self.scale),
                    max_x < 34000,
                    n == span(min_x as int, max_x + 1),
                    min_x <= x <= min_x + n,
                    vram@ == scan_row(row, min_x as int, y as int, (x - min_x) as nat, f),
                decreases max_x + 1 - x,
            {
                let w0: i32 = edge(t.p1, t.p2, (x, y));
                let w1: i32 = edge(t.p2, t.p0, (x, y));
                let w2: i32 = edge(t.p0, t.p1, (x, y));
                if w0 >= 0 && w1 >= 0 && w2 >= 0 {
                    let bw0: i32 = div_toward_zero(w0.wrapping_mul(4096), t.area);
                    let bw1: i32 = div_toward_zero(w1.wrapping_mul(4096), t.area);
                    let bw2: i32 = 4096i32.wrapping_sub(bw0).wrapping_sub(bw1);
                    let pixel: u16 = shading.pixel(bw0, bw1, bw2);
                    paint(vram, x, y, pixel, self.scale);
                }
                x = x + 1;
            }
            y = y + 1;
        }
    }
}

pub proof fn lemma_fill_size(xy: u32, wh: u32)
    ensures
        xy & 0x3F0 <= 0x3F0,
        (xy >> 16) & 0x1FF <= 0x1FF,
        wh & 0x3FF <= 0x3FF,
        (wh >> 16) & 0x1FF <= 0x1FF,
        0 <= (((wh & 0x3FF) as i32 + 0xF) as i32 & !0xFi32) <= 0x40F,
{
    crate::bits::lemma_parts_of(xy);
    crate::bits::lemma_parts_of(wh);
    crate::bits::lemma_coordinate_of(((wh & 0x3FF) as i32 + 0xF) as i32);
}

proof fn lemma_zeroed(y: i32)
    ensures
        y.wrapping_mul(0i32) == 0,
{
}

proof fn lemma_negated(y: i32)
    requires
        0 <= y < 0x1_0000,
    ensures
        y.wrapping_mul((-1) as i32) == -y,
{
}

} // verus!
