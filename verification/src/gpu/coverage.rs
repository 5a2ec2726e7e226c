//! Which pixels a primitive touches.

use crate::arith::{lemma_signed_word, trunc_div};
use crate::gpu::commands::{filled, word_color15};
use crate::gpu::rasterizer::{
    block_point, edge_area, fill_h, fill_point, fill_w, fill_x, fill_y, lemma_fill_size, max3,
    min3, painted, rect_filled, rect_point, scan, scan_row, span, triangle_drawn, triangle_point,
    wound, DrawArea, Shading,
};
use crate::gpu::vram::{pixel_at, with_pixel, VRAM_PIXELS};
use vstd::prelude::*;

verus! {

/// A draw area inside video memory.
pub open spec fn on_screen(area: DrawArea) -> bool {
    0 <= area.left && area.right < 1024 && 0 <= area.top && area.bottom < 512
}

/// A scale at which on-screen coordinates do not overflow.
pub open spec fn usable_scale(scale: u32) -> bool {
    1 <= scale <= 0x1F_FFFF
}

proof fn lemma_block_quotient(x: int, s: int, d: int)
    requires
        0 <= x,
        0 <= d < s,
    ensures
        trunc_div(x * s + d, s) == x,
{
    assert(x * s >= 0 && (x * s + d) / s == x) by (nonlinear_arith)
        requires
            0 <= x,
            0 <= d < s,
    ;
}

proof fn lemma_block_row(v: Seq<u16>, x: i32, y: i32, sy: int, color: u16, scale: u32, n: nat)
    requires
        usable_scale(scale),
        0 <= x < 1024,
        0 <= y < 512,
        0 <= sy < scale,
        n <= scale,
        v.len() == VRAM_PIXELS,
    ensures
        scan_row(v, 0, sy, n, block_point(x, y, color, scale)) == (if n == 0 {
            v
        } else {
            with_pixel(v, x as int, y as int, color)
        }),
    decreases n,
{
    if n > 0 {
        lemma_block_row(v, x, y, sy, color, scale, (n - 1) as nat);
        lemma_signed_word(scale);
        let s = scale as int;
        let sx = n - 1;
        assert(x * s + s <= 1024 * 0x1F_FFFF && y * s + s <= 1024 * 0x1F_FFFF) by (nonlinear_arith)
            requires
                0 <= x < 1024,
                0 <= y < 512,
                1 <= s <= 0x1F_FFFF,
        ;
        assert(x * s >= 0 && y * s >= 0) by (nonlinear_arith)
            requires
                0 <= x,
                0 <= y,
                1 <= s,
        ;
        assert(x.wrapping_mul(scale as i32) == x * s);
        assert(y.wrapping_mul(scale as i32) == y * s);
        lemma_block_quotient(x as int, s, sx);
        lemma_block_quotient(y as int, s, sy);
        let at = with_pixel(v, x as int, y as int, color);
        assert(with_pixel(at, x as int, y as int, color) =~= at);
    }
}

proof fn lemma_block(v: Seq<u16>, x: i32, y: i32, color: u16, scale: u32, n: nat)
    requires
        usable_scale(scale),
        0 <= x < 1024,
        0 <= y < 512,
        n <= scale,
        v.len() == VRAM_PIXELS,
    ensures
        scan(v, 0, 0, scale as nat, n, block_point(x, y, color, scale)) == (if n == 0 {
            v
        } else {
            with_pixel(v, x as int, y as int, color)
        }),
    decreases n,
{
    if n > 0 {
        let m = (n - 1) as nat;
        lemma_block(v, x, y, color, scale, m);
        let before = scan(v, 0, 0, scale as nat, m, block_point(x, y, color, scale));
        lemma_block_row(before, x, y, m as int, color, scale, scale as nat);
        let at = with_pixel(v, x as int, y as int, color);
        assert(with_pixel(at, x as int, y as int, color) =~= at);
    }
}

/// Painting an on-screen point sets exactly its native pixel, at every scale.
pub proof fn law_painted_is_native(v: Seq<u16>, x: i32, y: i32, color: u16, scale: u32)
    requires
        v.len() == VRAM_PIXELS,
        usable_scale(scale),
        0 <= x < 1024,
        0 <= y < 512,
    ensures
        painted(v, x, y, color, scale) == with_pixel(v, x as int, y as int, color),
{
    lemma_signed_word(scale);
    lemma_block(v, x, y, color, scale, scale as nat);
}

/// A point function that, at each on-screen point, either sets the pixel there
/// or does nothing.
pub open spec fn pointwise(
    f: spec_fn(Seq<u16>, int, int) -> Seq<u16>,
    x: int,
    y: int,
    hit: bool,
    color: u16,
) -> bool {
    forall|v: Seq<u16>|
        v.len() == VRAM_PIXELS ==> #[trigger] f(v, x, y) == (if hit {
            with_pixel(v, x, y, color)
        } else {
            v
        })
}

/// `hit` as a function of the point.
pub open spec fn hits(hit: spec_fn(int, int) -> bool, x: int, y: int) -> bool {
    hit(x, y)
}

proof fn lemma_scan_row_uniform(
    v: Seq<u16>,
    x: int,
    y: int,
    n: nat,
    f: spec_fn(Seq<u16>, int, int) -> Seq<u16>,
    hit: spec_fn(int, int) -> bool,
    color: u16,
    k: int,
)
    requires
        v.len() == VRAM_PIXELS,
        0 <= x,
        x + n <= 1024,
        0 <= y < 512,
        0 <= k < VRAM_PIXELS,
        forall|px: int|
            x <= px < x + n ==> pointwise(f, px, y, #[trigger] hits(hit, px, y), color),
    ensures
        scan_row(v, x, y, n, f).len() == VRAM_PIXELS,
        scan_row(v, x, y, n, f)[k] == (if k / 1024 == y && x <= k % 1024 < x + n && hits(
            hit,
            k % 1024,
            y,
        ) {
            color
        } else {
            v[k]
        }),
    decreases n,
{
    if n > 0 {
        let m = (n - 1) as nat;
        assert forall|px: int| x <= px < x + m implies pointwise(
            f,
            px,
            y,
            #[trigger] hits(hit, px, y),
            color,
        ) by {}
        lemma_scan_row_uniform(v, x, y, m, f, hit, color, k);
        let before = scan_row(v, x, y, m, f);
        assert(pointwise(f, x + m, y, hits(hit, x + m, y), color));
        assert(f(before, x + m, y) == (if hits(hit, x + m, y) {
            with_pixel(before, x + m, y, color)
        } else {
            before
        }));
    }
}

proof fn lemma_scan_uniform(
    v: Seq<u16>,
    x: int,
    y: int,
    w: nat,
    n: nat,
    f: spec_fn(Seq<u16>, int, int) -> Seq<u16>,
    hit: spec_fn(int, int) -> bool,
    color: u16,
    k: int,
)
    requires
        v.len() == VRAM_PIXELS,
        n > 0 && w > 0 ==> 0 <= x && x + w <= 1024 && 0 <= y && y + n <= 512,
        0 <= k < VRAM_PIXELS,
        forall|px: int, py: int|
            x <= px < x + w && y <= py < y + n ==> pointwise(
                f,
                px,
                py,
                #[trigger] hits(hit, px, py),
                color,
            ),
    ensures
        scan(v, x, y, w, n, f).len() == VRAM_PIXELS,
        scan(v, x, y, w, n, f)[k] == (if x <= k % 1024 < x + w && y <= k / 1024 < y + n && hits(
            hit,
            k % 1024,
            k / 1024,
        ) {
            color
        } else {
            v[k]
        }),
    decreases n,
{
    if n > 0 {
        let m = (n - 1) as nat;
        lemma_scan_uniform(v, x, y, w, m, f, hit, color, k);
        if w > 0 {
            lemma_scan_row_uniform(scan(v, x, y, w, m, f), x, y + m, w, f, hit, color, k);
        }
    }
}

/// A flat triangle colours exactly the covered points of its clipped bounding
/// box and changes nothing else; in particular nothing outside the draw area.
pub proof fn law_flat_triangle(
    v: Seq<u16>,
    area: DrawArea,
    p0: (i32, i32),
    p1: (i32, i32),
    p2: (i32, i32),
    pixel: u16,
    scale: u32,
    k: int,
)
    requires
        v.len() == VRAM_PIXELS,
        usable_scale(scale),
        on_screen(area),
        0 <= k < VRAM_PIXELS,
    ensures
        triangle_drawn(v, area, p0, p1, p2, (Shading::Flat { pixel }), scale)[k] == (if edge_area(
            p0,
            p1,
            p2,
        ) != 0 && area.inside((k % 1024) as i32, (k / 1024) as i32) && min3(p0.0, p1.0, p2.0) <= k
            % 1024 <= max3(p0.0, p1.0, p2.0) && min3(p0.1, p1.1, p2.1) <= k / 1024 <= max3(
            p0.1,
            p1.1,
            p2.1,
        ) && wound(p0, p1, p2).covers((k % 1024) as i32, (k / 1024) as i32) {
            pixel
        } else {
            v[k]
        }),
{
    let min_x = max3(min3(p0.0, p1.0, p2.0), area.left, area.left);
    let max_x = min3(max3(p0.0, p1.0, p2.0), area.right, area.right);
    let min_y = max3(min3(p0.1, p1.1, p2.1), area.top, area.top);
    let max_y = min3(max3(p0.1, p1.1, p2.1), area.bottom, area.bottom);
    if edge_area(p0, p1, p2) != 0 {
        let t = wound(p0, p1, p2);
        let f = triangle_point(t, Shading::Flat { pixel }, scale);
        let hit = |x: int, y: int| t.covers(x as i32, y as i32);
        let (w, n) = (span(min_x as int, max_x + 1), span(min_y as int, max_y + 1));
        assert forall|px: int, py: int|
            min_x <= px < min_x + w && min_y <= py < min_y + n implies pointwise(
            f,
            px,
            py,
            #[trigger] hits(hit, px, py),
            pixel,
        ) by {
            assert forall|u: Seq<u16>| u.len() == VRAM_PIXELS implies #[trigger] f(u, px, py) == (
            if hits(hit, px, py) {
                with_pixel(u, px, py, pixel)
            } else {
                u
            }) by {
                law_painted_is_native(u, px as i32, py as i32, pixel, scale);
            }
        }
        lemma_scan_uniform(v, min_x as int, min_y as int, w, n, f, hit, pixel, k);
    }
}

/// A flat rectangle at (`x0`, `y0`) colours exactly its points inside the draw
/// area and changes nothing else.
pub proof fn law_flat_rect(
    v: Seq<u16>,
    area: DrawArea,
    x0: i32,
    y0: i32,
    w: nat,
    h: nat,
    pixel: u16,
    scale: u32,
    k: int,
)
    requires
        v.len() == VRAM_PIXELS,
        usable_scale(scale),
        on_screen(area),
        -34000 < x0 < 34000,
        -34000 < y0 < 34000,
        w <= 1024,
        h <= 512,
        0 <= k < VRAM_PIXELS,
    ensures
        scan(v, 0, 0, w, h, rect_point(area, x0, y0, pixel, scale)).len() == VRAM_PIXELS,
        scan(v, 0, 0, w, h, rect_point(area, x0, y0, pixel, scale))[k] == (if area.inside(
            (k % 1024) as i32,
            (k / 1024) as i32,
        ) && x0 <= k % 1024 < x0 + w && y0 <= k / 1024 < y0 + h {
            pixel
        } else {
            v[k]
        }),
    decreases h,
{
    if h > 0 {
        let m = (h - 1) as nat;
        law_flat_rect(v, area, x0, y0, w, m, pixel, scale, k);
        let before = scan(v, 0, 0, w, m, rect_point(area, x0, y0, pixel, scale));
        lemma_rect_row(before, area, x0, y0, m as int, w, pixel, scale, k);
    }
}

proof fn lemma_rect_row(
    v: Seq<u16>,
    area: DrawArea,
    x0: i32,
    y0: i32,
    dy: int,
    n: nat,
    pixel: u16,
    scale: u32,
    k: int,
)
    requires
        v.len() == VRAM_PIXELS,
        usable_scale(scale),
        on_screen(area),
        -34000 < x0 < 34000,
        -34000 < y0 < 34000,
        n <= 1024,
        0 <= dy < 512,
        0 <= k < VRAM_PIXELS,
    ensures
        scan_row(v, 0, dy, n, rect_point(area, x0, y0, pixel, scale)).len() == VRAM_PIXELS,
        scan_row(v, 0, dy, n, rect_point(area, x0, y0, pixel, scale))[k] == (if area.inside(
            (k % 1024) as i32,
            (k / 1024) as i32,
        ) && x0 <= k % 1024 < x0 + n && k / 1024 == y0 + dy {
            pixel
        } else {
            v[k]
        }),
    decreases n,
{
    if n > 0 {
        let m = (n - 1) as nat;
        lemma_rect_row(v, area, x0, y0, dy, m, pixel, scale, k);
        let before = scan_row(v, 0, dy, m, rect_point(area, x0, y0, pixel, scale));
        let (px, py) = ((x0 + m) as i32, (y0 + dy) as i32);
        if area.inside(px, py) {
            law_painted_is_native(before, px, py, pixel, scale);
        }
    }
}

/// Whether point `j` after `origin`, at `s` times the native resolution, lies in
/// the native column or row `at` of `size`.
pub open spec fn lands_on(at: int, origin: int, j: int, s: int, size: int) -> bool {
    trunc_div(origin + j, s) % size == at
}

proof fn lemma_fill_row(
    v: Seq<u16>,
    x0: int,
    y: int,
    n: nat,
    pixel: u16,
    scale: u32,
    k: int,
)
    requires
        v.len() == VRAM_PIXELS,
        0 <= k < VRAM_PIXELS,
    ensures
        scan_row(v, x0, y, n, fill_point(pixel, scale)).len() == VRAM_PIXELS,
        scan_row(v, x0, y, n, fill_point(pixel, scale))[k] == (if lands_on(
            k / 1024,
            y,
            0,
            scale as i32 as int,
            512,
        ) && exists|j: int|
            0 <= j < n && #[trigger] lands_on(k % 1024, x0, j, scale as i32 as int, 1024) {
            pixel
        } else {
            v[k]
        }),
    decreases n,
{
    if n > 0 {
        let m = (n - 1) as nat;
        lemma_fill_row(v, x0, y, m, pixel, scale, k);
        let s = scale as i32 as int;
        let before = scan_row(v, x0, y, m, fill_point(pixel, scale));
        let (px, py) = (trunc_div(x0 + n - 1, s), trunc_div(y, s));
        assert(scan_row(v, x0, y, n, fill_point(pixel, scale)) == with_pixel(
            before,
            px,
            py,
            pixel,
        ));
        assert(lands_on(k % 1024, x0, m as int, s, 1024) == (px % 1024 == k % 1024));
        assert(lands_on(k / 1024, y, 0, s, 512) == (py % 512 == k / 1024));
    }
}

proof fn lemma_fill_rows(
    v: Seq<u16>,
    x0: int,
    y0: int,
    w: nat,
    n: nat,
    pixel: u16,
    scale: u32,
    k: int,
)
    requires
        v.len() == VRAM_PIXELS,
        0 <= k < VRAM_PIXELS,
    ensures
        scan(v, x0, y0, w, n, fill_point(pixel, scale)).len() == VRAM_PIXELS,
        scan(v, x0, y0, w, n, fill_point(pixel, scale))[k] == (if (exists|i: int|
            0 <= i < n && #[trigger] lands_on(k / 1024, y0, i, scale as i32 as int, 512)) && (
        exists|j: int|
            0 <= j < w && #[trigger] lands_on(k % 1024, x0, j, scale as i32 as int, 1024)) {
            pixel
        } else {
            v[k]
        }),
    decreases n,
{
    if n > 0 {
        let m = (n - 1) as nat;
        let s = scale as i32 as int;
        lemma_fill_rows(v, x0, y0, w, m, pixel, scale, k);
        let before = scan(v, x0, y0, w, m, fill_point(pixel, scale));
        lemma_fill_row(before, x0, y0 + m, w, pixel, scale, k);
        assert(lands_on(k / 1024, y0, m as int, s, 512) == lands_on(k / 1024, y0 + m, 0, s, 512));
    }
}

/// The points of an upscaled stretch land on exactly the columns, or rows, of the
/// native one.
proof fn lemma_stretch(at: int, x: int, w: int, s: int, size: int)
    requires
        0 <= at < size,
        size == 512 || size == 1024,
        0 <= x,
        0 <= w,
        1 <= s,
    ensures
        (exists|j: int| 0 <= j < w * s && #[trigger] lands_on(at, x * s, j, s, size)) <==> (at - x)
            % size < w,
{
    let c = (at - x) % size;
    if c < w {
        assert(0 <= c * s < w * s) by (nonlinear_arith)
            requires
                0 <= c < w,
                1 <= s,
        ;
        assert(x * s + c * s == (x + c) * s) by (nonlinear_arith);
        lemma_block_quotient(x + c, s, 0);
        assert(lands_on(at, x * s, c * s, s, size));
    }
    if exists|j: int| 0 <= j < w * s && #[trigger] lands_on(at, x * s, j, s, size) {
        let j = choose|j: int| 0 <= j < w * s && #[trigger] lands_on(at, x * s, j, s, size);
        let d = j / s;
        vstd::arithmetic::div_mod::lemma_fundamental_div_mod(j, s);
        assert(0 <= d < w) by (nonlinear_arith)
            requires
                j == s * d + j % s,
                0 <= j % s < s,
                0 <= j < w * s,
        ;
        assert(x * s + j == (x + d) * s + j % s) by (nonlinear_arith)
            requires
                j == s * d + j % s,
        ;
        lemma_block_quotient(x + d, s, j % s);
    }
}

/// A fill without width or height changes nothing.
proof fn lemma_empty_fill(v: Seq<u16>, color: u32, xy: u32, wh: u32, scale: u32)
    requires
        v.len() == VRAM_PIXELS,
        fill_w(wh) <= 0 || fill_h(wh) <= 0,
        fill_w(wh) >= 0,
        fill_h(wh) >= 0,
    ensures
        rect_filled(v, color, xy, wh, scale) == v,
        filled(
            v,
            fill_x(xy) as int,
            fill_y(xy) as int,
            fill_w(wh) as int,
            fill_h(wh) as int,
            word_color15(color),
        ) == v,
{
    let s = scale as i32;
    let (x0, y0) = (fill_x(xy).wrapping_mul(s) as int, fill_y(xy).wrapping_mul(s) as int);
    let y1 = ((fill_y(xy) + fill_h(wh)) as i32).wrapping_mul(s) as int;
    let f = fill_point(word_color15(color), scale);
    if fill_w(wh) == 0 {
        lemma_no_columns(v, x0, y0, span(y0, y1), f);
    }
    assert(filled(
        v,
        fill_x(xy) as int,
        fill_y(xy) as int,
        fill_w(wh) as int,
        fill_h(wh) as int,
        word_color15(color),
    ) =~= v);
}

proof fn lemma_no_columns(
    v: Seq<u16>,
    x: int,
    y: int,
    n: nat,
    f: spec_fn(Seq<u16>, int, int) -> Seq<u16>,
)
    ensures
        scan(v, x, y, 0, n, f) == v,
    decreases n,
{
    if n > 0 {
        lemma_no_columns(v, x, y, (n - 1) as nat, f);
    }
}

proof fn lemma_scale_fits(x: int, scale: u32)
    requires
        1 <= x,
        x * scale <= i32::MAX,
    ensures
        scale <= i32::MAX,
        scale as i32 == scale,
{
    lemma_signed_word(scale);
    let s = scale as int;
    assert(s <= x * s) by (nonlinear_arith)
        requires
            1 <= x,
            0 <= s,
    ;
}

/// The ends of an upscaled stretch, if they do not overflow.
proof fn lemma_scaled_corner(x: i32, w: i32, scale: u32)
    requires
        0 <= x,
        0 <= w,
        1 <= scale,
        scale as i32 == scale,
        (x + w) * scale <= i32::MAX,
        x + w <= i32::MAX,
    ensures
        x.wrapping_mul(scale as i32) == x * scale,
        ((x + w) as i32).wrapping_mul(scale as i32) == x * scale + w * scale,
        0 <= w * scale,
        span(x * scale, x * scale + w * scale) == w * scale,
{
    let s = scale as int;
    assert(0 <= x * s && (x + w) * s == x * s + w * s && 0 <= w * s) by (nonlinear_arith)
        requires
            0 <= x,
            0 <= w,
            0 <= s,
    ;
}

/// Scanning an upscaled rectangle fills the native one.
proof fn lemma_fill_scan(v: Seq<u16>, x: int, y: int, w: int, h: int, pixel: u16, scale: u32)
    requires
        v.len() == VRAM_PIXELS,
        0 <= x,
        0 <= y,
        0 <= w,
        0 <= h,
        1 <= scale,
        scale as i32 == scale,
        0 <= w * scale,
        0 <= h * scale,
    ensures
        scan(
            v,
            x * scale,
            y * scale,
            (w * scale) as nat,
            (h * scale) as nat,
            fill_point(pixel, scale),
        ) == filled(v, x, y, w, h, pixel),
{
    let s = scale as int;
    let (ws, hs) = ((w * s) as nat, (h * s) as nat);
    let after = scan(v, x * s, y * s, ws, hs, fill_point(pixel, scale));
    assert forall|k: int| 0 <= k < VRAM_PIXELS implies #[trigger] after[k] == filled(
        v,
        x,
        y,
        w,
        h,
        pixel,
    )[k] by {
        lemma_fill_rows(v, x * s, y * s, ws, hs, pixel, scale, k);
        lemma_stretch(k % 1024, x, w, s, 1024);
        lemma_stretch(k / 1024, y, h, s, 512);
    }
    lemma_fill_rows(v, x * s, y * s, ws, hs, pixel, scale, 0);
    assert(after =~= filled(v, x, y, w, h, pixel));
}

/// A fill sets exactly the pixels of its rounded rectangle, wrapping at the edges
/// of video memory, at every scale at which its corners do not overflow.
pub proof fn law_fill_rect(v: Seq<u16>, color: u32, xy: u32, wh: u32, scale: u32)
    requires
        v.len() == VRAM_PIXELS,
        scale >= 1,
        (fill_x(xy) + fill_w(wh)) * scale <= i32::MAX,
        (fill_y(xy) + fill_h(wh)) * scale <= i32::MAX,
    ensures
        rect_filled(v, color, xy, wh, scale) == filled(
            v,
            fill_x(xy) as int,
            fill_y(xy) as int,
            fill_w(wh) as int,
            fill_h(wh) as int,
            word_color15(color),
        ),
{
    lemma_fill_size(xy, wh);
    let (x, y, w, h) = (fill_x(xy), fill_y(xy), fill_w(wh), fill_h(wh));
    if w > 0 && h > 0 {
        lemma_scale_fits(x + w, scale);
        lemma_scaled_corner(x, w, scale);
        lemma_scaled_corner(y, h, scale);
        lemma_fill_scan(
            v,
            x as int,
            y as int,
            w as int,
            h as int,
            word_color15(color),
            scale,
        );
    } else {
        lemma_empty_fill(v, color, xy, wh, scale);
    }
}

/// The pixels of a filled rectangle: (`px`, `py`) is filled if it is some columns
/// right and some rows below the corner, and is as it was otherwise.
pub proof fn law_filled_pixels(
    v: Seq<u16>,
    x: int,
    y: int,
    w: int,
    h: int,
    pixel: u16,
    px: int,
    py: int,
)
    requires
        v.len() == VRAM_PIXELS,
        0 <= px < 1024,
        0 <= py < 512,
    ensures
        pixel_at(filled(v, x, y, w, h, pixel), px, py) == (if exists|dx: int, dy: int|
            0 <= dx < w && 0 <= dy < h && #[trigger] offset_by(px, py, x, y, dx, dy) {
            pixel
        } else {
            pixel_at(v, px, py)
        }),
{
    let (dx, dy) = ((px - x) % 1024, (py - y) % 512);
    assert(offset_by(px, py, x, y, dx, dy));
}

/// Whether (`px`, `py`) is `dx` columns right of and `dy` rows below (`x`, `y`),
/// wrapping at the edges of video memory.
pub open spec fn offset_by(px: int, py: int, x: int, y: int, dx: int, dy: int) -> bool {
    px == (x + dx) % 1024 && py == (y + dy) % 512
}

} // verus!
