//! What drawing gives, in numbers: how words are read as colours, coordinates and
//! textures, and which pixels they end up in.

use crate::bits::{lemma_parts_of, lemma_coordinate_of};
use crate::gpu::commands::{sext11, word_color15};
use crate::gpu::coverage::{law_flat_rect, law_painted_is_native, on_screen, usable_scale};
use crate::gpu::rasterizer::{
    flat_rect_drawn, scan, scan_row, texture_point, textured_rect_drawn, vertex, DrawArea, Texture,
};
use crate::gpu::vram::{pixel_at, pixel_index, with_pixel, VRAM_PIXELS};
use vstd::prelude::*;

verus! {

pub proof fn lemma_color_parts(r: u16, g: u16, b: u16)
    by (bit_vector)
    requires
        r < 256,
        g < 256,
        b < 256,
    ensures
        ((r >> 3) & 0x1F) | (((g >> 3) & 0x1F) << 5) | (((b >> 3) & 0x1F) << 10) == r / 8 + g / 8
            * 32 + b / 8 * 1024,
{
}

/// A colour keeps the upper five bits of its red, green and blue bytes, red lowest.
pub proof fn law_color(word: u32)
    ensures
        word_color15(word) == word as int % 0x100 / 8 + word as int / 0x100 % 0x100 / 8 * 32
            + word as int / 0x1_0000 % 0x100 / 8 * 1024,
{
    lemma_parts_of(word);
    lemma_color_parts(
        ((word & 0xFF) as u8) as u16,
        (((word >> 8) & 0xFF) as u8) as u16,
        (((word >> 16) & 0xFF) as u8) as u16,
    );
}

/// An eleven-bit coordinate, signed.
pub open spec fn signed11(n: int) -> int {
    if n % 0x800 < 0x400 {
        n % 0x800
    } else {
        n % 0x800 - 0x800
    }
}

/// A vertex word holds two signed coordinates of eleven bits, to which the drawing
/// offset is added.
pub proof fn law_vertex(word: u32, offset: (i16, i16))
    ensures
        sext11(word) == signed11(word as int),
        vertex(word, offset).0 == signed11(word as int) + offset.0,
        vertex(word, offset).1 == signed11(word as int / 0x1_0000) + offset.1,
{
    lemma_parts_of(word);
    lemma_parts_of(word >> 16);
}

/// A flat rectangle colours exactly its points inside the draw area and changes
/// nothing else.
pub proof fn law_flat_rect_drawn(
    v: Seq<u16>,
    color: u32,
    corner: u32,
    w: i32,
    h: i32,
    area: DrawArea,
    offset: (i16, i16),
    scale: u32,
    px: int,
    py: int,
)
    requires
        v.len() == VRAM_PIXELS,
        usable_scale(scale),
        on_screen(area),
        0 <= w <= 1024,
        0 <= h <= 512,
        0 <= px < 1024,
        0 <= py < 512,
    ensures
        ({
            let x0 = signed11(corner as int) + offset.0;
            let y0 = signed11(corner as int / 0x1_0000) + offset.1;
            pixel_at(flat_rect_drawn(v, color, corner, w, h, area, offset, scale), px, py) == (
            if area.left <= px <= area.right && area.top <= py <= area.bottom && x0 <= px < x0 + w
                && y0 <= py < y0 + h {
                word_color15(color)
            } else {
                pixel_at(v, px, py)
            })
        }),
{
    law_vertex(corner, offset);
    let (x0, y0) = vertex(corner, offset);
    let k = pixel_index(px, py);
    assert(k % 1024 == px && k / 1024 == py);
    law_flat_rect(v, area, x0, y0, w as nat, h as nat, word_color15(color), scale, k);
}

/// Where a texture lies: pages are 64 words by 256 rows, palettes start at multiples
/// of sixteen words, and the depth says how many texels share a word.
pub proof fn law_texture_fields(uv_clut: u32, texpage: u32)
    ensures
        ({
            let t = Texture::of(uv_clut, texpage);
            &&& t.tp_x == texpage as int % 16 * 64
            &&& t.tp_y == texpage as int / 16 % 2 * 256
            &&& t.clut_x == uv_clut as int / 0x1_0000 % 64 * 16
            &&& t.clut_y == uv_clut as int / 0x40_0000 % 512
            &&& t.depth == texpage as int / 128 % 4
        }),
{
    lemma_parts_of(uv_clut);
    lemma_parts_of(texpage);
}

proof fn lemma_texel_parts(w: u16, u: u16)
    by (bit_vector)
    requires
        u < 256,
    ensures
        u % 4 == 0 ==> (w >> (((u & 3) * 4) as u16)) & 0xF == w % 16,
        u % 4 == 1 ==> (w >> (((u & 3) * 4) as u16)) & 0xF == w / 16 % 16,
        u % 4 == 2 ==> (w >> (((u & 3) * 4) as u16)) & 0xF == w / 256 % 16,
        u % 4 == 3 ==> (w >> (((u & 3) * 4) as u16)) & 0xF == w / 4096,
        u % 2 == 0 ==> (w >> (((u & 1) * 8) as u16)) & 0xFF == w % 256,
        u % 2 == 1 ==> (w >> (((u & 1) * 8) as u16)) & 0xFF == w / 256,
{
}

/// Nibble `k` of a word, lowest first.
pub open spec fn nibble(w: u16, k: int) -> int {
    if k == 0 {
        w as int % 16
    } else if k == 1 {
        w as int / 16 % 16
    } else if k == 2 {
        w as int / 256 % 16
    } else {
        w as int / 4096
    }
}

/// Byte `k` of a word, lowest first.
pub open spec fn byte_of(w: u16, k: int) -> int {
    if k == 0 {
        w as int % 256
    } else {
        w as int / 256
    }
}

/// A row of a texture is the row of words at its place, cut into texels: four nibbles
/// to a word, or two bytes, or whole words, the lowest first. Nibbles and bytes choose
/// an entry of the palette.
pub proof fn law_texel(t: Texture, vram: Seq<u16>, words: spec_fn(int) -> u16, u: u16, v: u16)
    requires
        u < 256,
        v < 256,
        forall|j: int|
            0 <= j < 256 ==> pixel_at(vram, t.tp_x + j, t.tp_y + v) == #[trigger] words(j),
    ensures
        t.depth == 0 ==> t.texel(vram, u, v) == pixel_at(
            vram,
            t.clut_x + nibble(words(u as int / 4), u as int % 4),
            t.clut_y as int,
        ),
        t.depth == 1 ==> t.texel(vram, u, v) == pixel_at(
            vram,
            t.clut_x + byte_of(words(u as int / 2), u as int % 2),
            t.clut_y as int,
        ),
        t.depth == 2 || t.depth == 3 ==> t.texel(vram, u, v) == words(u as int),
{
    lemma_texel_parts(words(u as int / 4), u);
    lemma_texel_parts(words(u as int / 2), u);
}

/// Whether a pixel of video memory is a word of the texture or an entry of its palette.
#[verifier::opaque]
pub open spec fn is_source(t: Texture, q: int) -> bool {
    ||| exists|j: int, v: int|
        0 <= j < 256 && 0 <= v < 256 && q == #[trigger] pixel_index(t.tp_x + j, t.tp_y + v)
    ||| exists|e: int| 0 <= e < 256 && q == #[trigger] pixel_index(t.clut_x + e, t.clut_y as int)
}

/// Whether two pictures agree on a texture and its palette.
pub open spec fn same_source(t: Texture, a: Seq<u16>, b: Seq<u16>) -> bool {
    forall|q: int| #[trigger] is_source(t, q) ==> a[q] == b[q]
}

proof fn lemma_same_texel(t: Texture, a: Seq<u16>, b: Seq<u16>, u: u16, v: u16)
    requires
        same_source(t, a, b),
        u < 256,
        v < 256,
    ensures
        t.texel(a, u, v) == t.texel(b, u, v),
{
    reveal(is_source);
    let q4 = pixel_index(t.tp_x + u as int / 4, t.tp_y + v);
    let q2 = pixel_index(t.tp_x + u as int / 2, t.tp_y + v);
    let q1 = pixel_index(t.tp_x + u, t.tp_y + v);
    assert(is_source(t, q4) && is_source(t, q2) && is_source(t, q1));
    let (w4, w2) = (a[q4], a[q2]);
    lemma_texel_parts(w4, u);
    lemma_texel_parts(w2, u);
    let n = nibble(w4, u as int % 4);
    let m = byte_of(w2, u as int % 2);
    assert(is_source(t, pixel_index(t.clut_x + n, t.clut_y as int)));
    assert(is_source(t, pixel_index(t.clut_x + m, t.clut_y as int)));
}

/// The texel that point (`dx`, `dy`) of a rectangle shows.
#[verifier::opaque]
pub open spec fn shown_texel(t: Texture, v: Seq<u16>, u0: int, v0: int, dx: int, dy: int) -> u16 {
    t.texel(v, ((u0 + dx) % 256) as u16, ((v0 + dy) % 256) as u16)
}

/// Whether no point of a rectangle inside the draw area is a source of its texture.
pub open spec fn not_overdrawn(t: Texture, area: DrawArea, x0: int, y0: int, w: int, h: int) -> bool {
    forall|px: int, py: int|
        area.left <= px <= area.right && area.top <= py <= area.bottom && x0 <= px < x0 + w && y0
            <= py < y0 + h ==> !is_source(t, #[trigger] pixel_index(px, py))
}

/// What one point of a textured rectangle does.
proof fn lemma_texture_point(
    orig: Seq<u16>,
    v: Seq<u16>,
    t: Texture,
    area: DrawArea,
    x0: i32,
    y0: i32,
    u0: i32,
    v0: i32,
    dx: int,
    dy: int,
    scale: u32,
)
    requires
        v.len() == VRAM_PIXELS,
        usable_scale(scale),
        on_screen(area),
        -34000 < x0 < 34000,
        -34000 < y0 < 34000,
        0 <= u0 < 256,
        0 <= v0 < 256,
        0 <= dx < 1024,
        0 <= dy < 512,
        same_source(t, orig, v),
    ensures
        ({
            let texel = shown_texel(t, orig, u0 as int, v0 as int, dx, dy);
            texture_point(area, x0, y0, u0, v0, t, scale)(v, dx, dy) == (if area.inside(
                (x0 + dx) as i32,
                (y0 + dy) as i32,
            ) && texel != 0 {
                with_pixel(v, x0 + dx, y0 + dy, texel)
            } else {
                v
            })
        }),
{
    reveal(shown_texel);
    let (px, py) = ((x0 + dx) as i32, (y0 + dy) as i32);
    lemma_coordinate_of((u0 + dx) as i32);
    lemma_coordinate_of((v0 + dy) as i32);
    let (a, b) = (((u0 + dx) % 256) as u16, ((v0 + dy) % 256) as u16);
    lemma_same_texel(t, orig, v, a, b);
    if area.inside(px, py) {
        law_painted_is_native(v, px, py, t.texel(orig, a, b), scale);
    }
}

proof fn lemma_texture_row(
    orig: Seq<u16>,
    v: Seq<u16>,
    t: Texture,
    area: DrawArea,
    x0: i32,
    y0: i32,
    u0: i32,
    v0: i32,
    dy: int,
    w: int,
    h: int,
    n: nat,
    scale: u32,
    k: int,
)
    requires
        v.len() == VRAM_PIXELS,
        usable_scale(scale),
        on_screen(area),
        -34000 < x0 < 34000,
        -34000 < y0 < 34000,
        0 <= u0 < 256,
        0 <= v0 < 256,
        n <= w <= 1024,
        0 <= dy < h <= 512,
        0 <= k < VRAM_PIXELS,
        same_source(t, orig, v),
        not_overdrawn(t, area, x0 as int, y0 as int, w, h),
    ensures
        ({
            let f = texture_point(area, x0, y0, u0, v0, t, scale);
            let r = scan_row(v, 0, dy, n, f);
            let dx = k % 1024 - x0;
            let texel = shown_texel(t, orig, u0 as int, v0 as int, dx, dy);
            &&& r.len() == VRAM_PIXELS
            &&& r[k] == (if area.inside((k % 1024) as i32, (k / 1024) as i32) && 0 <= dx < n && k
                / 1024 == y0 + dy && texel != 0 {
                texel
            } else {
                v[k]
            })
        }),
    decreases n,
{
    if n > 0 {
        let m = (n - 1) as nat;
        let f = texture_point(area, x0, y0, u0, v0, t, scale);
        lemma_texture_row(orig, v, t, area, x0, y0, u0, v0, dy, w, h, m, scale, k);
        let before = scan_row(v, 0, dy, m, f);
        let (px, py) = ((x0 + m) as i32, (y0 + dy) as i32);
        assert forall|q: int| #[trigger] is_source(t, q) implies orig[q] == before[q] by {
            lemma_source_range(t, q);
            lemma_texture_row(orig, v, t, area, x0, y0, u0, v0, dy, w, h, m, scale, q);
            assert(pixel_index(q % 1024, q / 1024) == q);
        }
        lemma_texture_point(orig, before, t, area, x0, y0, u0, v0, m as int, dy, scale);
        if area.inside(px, py) {
            assert(pixel_index(px as int, py as int) == py * 1024 + px);
        }
    }
}

proof fn lemma_source_range(t: Texture, q: int)
    requires
        is_source(t, q),
    ensures
        0 <= q < VRAM_PIXELS,
{
    reveal(is_source);
}

proof fn lemma_texture_rows(
    orig: Seq<u16>,
    t: Texture,
    area: DrawArea,
    x0: i32,
    y0: i32,
    u0: i32,
    v0: i32,
    w: nat,
    h: int,
    n: nat,
    scale: u32,
    k: int,
)
    requires
        orig.len() == VRAM_PIXELS,
        usable_scale(scale),
        on_screen(area),
        -34000 < x0 < 34000,
        -34000 < y0 < 34000,
        0 <= u0 < 256,
        0 <= v0 < 256,
        w <= 1024,
        n <= h <= 512,
        0 <= k < VRAM_PIXELS,
        not_overdrawn(t, area, x0 as int, y0 as int, w as int, h),
    ensures
        ({
            let f = texture_point(area, x0, y0, u0, v0, t, scale);
            let r = scan(orig, 0, 0, w, n, f);
            let (dx, dy) = (k % 1024 - x0, k / 1024 - y0);
            let texel = shown_texel(t, orig, u0 as int, v0 as int, dx, dy);
            &&& r.len() == VRAM_PIXELS
            &&& r[k] == (if area.inside((k % 1024) as i32, (k / 1024) as i32) && 0 <= dx < w && 0
                <= dy < n && texel != 0 {
                texel
            } else {
                orig[k]
            })
        }),
    decreases n,
{
    if n > 0 {
        let m = (n - 1) as nat;
        let f = texture_point(area, x0, y0, u0, v0, t, scale);
        lemma_texture_rows(orig, t, area, x0, y0, u0, v0, w, h, m, scale, k);
        let before = scan(orig, 0, 0, w, m, f);
        assert forall|q: int| #[trigger] is_source(t, q) implies orig[q] == before[q] by {
            lemma_source_range(t, q);
            lemma_texture_rows(orig, t, area, x0, y0, u0, v0, w, h, m, scale, q);
            assert(pixel_index(q % 1024, q / 1024) == q);
        }
        lemma_texture_row(
            orig,
            before,
            t,
            area,
            x0,
            y0,
            u0,
            v0,
            m as int,
            w as int,
            h,
            w,
            scale,
            k,
        );
    }
}

/// A pixel inside a textured rectangle and the draw area ends up with its texel, and
/// stays as it was if that is zero. The texture coordinates start at those of the
/// word and wrap at 256. No other pixel is changed. The rectangle must not be drawn
/// over its own texture or palette.
pub proof fn law_textured_rect(
    v: Seq<u16>,
    corner: u32,
    uv_clut: u32,
    w: i32,
    h: i32,
    texpage: u32,
    area: DrawArea,
    offset: (i16, i16),
    scale: u32,
    px: int,
    py: int,
)
    requires
        v.len() == VRAM_PIXELS,
        usable_scale(scale),
        on_screen(area),
        0 <= w <= 1024,
        0 <= h <= 512,
        0 <= px < 1024,
        0 <= py < 512,
        not_overdrawn(
            Texture::of(uv_clut, texpage),
            area,
            signed11(corner as int) + offset.0,
            signed11(corner as int / 0x1_0000) + offset.1,
            w as int,
            h as int,
        ),
    ensures
        ({
            let (dx, dy) = (
                px - (signed11(corner as int) + offset.0),
                py - (signed11(corner as int / 0x1_0000) + offset.1),
            );
            let texel = Texture::of(uv_clut, texpage).texel(
                v,
                ((uv_clut as int % 0x100 + dx) % 256) as u16,
                ((uv_clut as int / 0x100 % 0x100 + dy) % 256) as u16,
            );
            pixel_at(
                textured_rect_drawn(v, corner, uv_clut, w, h, texpage, area, offset, scale),
                px,
                py,
            ) == (if area.left <= px <= area.right && area.top <= py <= area.bottom && 0 <= dx < w
                && 0 <= dy < h && texel != 0 {
                texel
            } else {
                pixel_at(v, px, py)
            })
        }),
{
    reveal(shown_texel);
    law_vertex(corner, offset);
    lemma_parts_of(uv_clut);
    let (x0, y0) = vertex(corner, offset);
    let k = pixel_index(px, py);
    assert(k % 1024 == px && k / 1024 == py);
    lemma_texture_rows(
        v,
        Texture::of(uv_clut, texpage),
        area,
        x0,
        y0,
        (uv_clut & 0xFF) as i32,
        ((uv_clut >> 8) & 0xFF) as i32,
        w as nat,
        h as int,
        h as nat,
        scale,
        k,
    );
}

} // verus!
