//! Triangles in exact numbers: which points they cover and how they are shaded.

use crate::bits::lemma_parts_of;
use crate::gpu::commands::{color15, word_color15};
use crate::gpu::picture_laws::lemma_color_parts;
use crate::gpu::coverage::{hits, law_painted_is_native, on_screen, pointwise, usable_scale};
use crate::gpu::rasterizer::{
    edge_area, flat_quad_drawn, flat_triangle_drawn, max3, min3, mixed, scan, scan_row,
    shaded_quad_drawn, shaded_triangle_drawn, span, triangle_drawn, triangle_point, vertex, wound,
    DrawArea, Shading,
};
use crate::gpu::vram::{with_pixel, VRAM_PIXELS};
use vstd::prelude::*;

verus! {

/// Twice the signed area of a triangle.
pub open spec fn cross(a: (int, int), b: (int, int), c: (int, int)) -> int {
    (b.0 - a.0) * (c.1 - a.1) - (b.1 - a.1) * (c.0 - a.0)
}

/// Whether a point lies so near to the screen that areas are exact.
pub open spec fn near(p: (i32, i32)) -> bool {
    -8192 <= p.0 <= 8191 && -8192 <= p.1 <= 8191
}

pub open spec fn exact(p: (i32, i32)) -> (int, int) {
    (p.0 as int, p.1 as int)
}

/// Near the screen the area of a triangle is exact.
pub proof fn law_area(a: (i32, i32), b: (i32, i32), c: (i32, i32))
    requires
        near(a),
        near(b),
        near(c),
    ensures
        edge_area(a, b, c) == cross(exact(a), exact(b), exact(c)),
{
    let (p, q) = (b.0 - a.0, c.1 - a.1);
    let (r, s) = (b.1 - a.1, c.0 - a.0);
    assert(-0x1000_0000 < p * q < 0x1000_0001) by (nonlinear_arith)
        requires
            -16383 <= p <= 16383,
            -16383 <= q <= 16383,
    ;
    assert(-0x1000_0000 < r * s < 0x1000_0001) by (nonlinear_arith)
        requires
            -16383 <= r <= 16383,
            -16383 <= s <= 16383,
    ;
}

/// A triangle covers a point exactly if the point lies on no edge's outer side, whichever
/// way round the corners run.
pub proof fn law_covered(
    p0: (i32, i32),
    p1: (i32, i32),
    p2: (i32, i32),
    x: i32,
    y: i32,
)
    requires
        near(p0),
        near(p1),
        near(p2),
        near((x, y)),
    ensures
        ({
            let (a, b, c) = (exact(p0), exact(p1), exact(p2));
            let p = (x as int, y as int);
            let whole = cross(a, b, c);
            let (e0, e1, e2) = (cross(b, c, p), cross(c, a, p), cross(a, b, p));
            &&& e0 + e1 + e2 == whole
            &&& whole > 0 ==> wound(p0, p1, p2).covers(x, y) == (e0 >= 0 && e1 >= 0 && e2 >= 0)
            &&& whole < 0 ==> wound(p0, p1, p2).covers(x, y) == (e0 <= 0 && e1 <= 0 && e2 <= 0)
        }),
{
    let (a, b, c) = (exact(p0), exact(p1), exact(p2));
    let p = (x as int, y as int);
    law_area(p0, p1, p2);
    law_area(p1, p2, (x, y));
    law_area(p2, p0, (x, y));
    law_area(p0, p1, (x, y));
    law_area(p2, p1, (x, y));
    law_area(p0, p2, (x, y));
    law_area(p1, p0, (x, y));
    lemma_turned(b, c, p);
    lemma_turned(c, a, p);
    lemma_turned(a, b, p);
    lemma_split(a, b, c, p);
}

/// Two corners swapped turn the area round.
proof fn lemma_turned(a: (int, int), b: (int, int), p: (int, int))
    ensures
        cross(b, a, p) == -cross(a, b, p),
{
    let (u, v) = (b.0 - a.0, b.1 - a.1);
    let (s, t) = (p.0 - a.0, p.1 - a.1);
    assert((a.0 - b.0) * (p.1 - b.1) - (a.1 - b.1) * (p.0 - b.0) == -(u * t - v * s))
        by (nonlinear_arith)
        requires
            u == b.0 - a.0,
            v == b.1 - a.1,
            s == p.0 - a.0,
            t == p.1 - a.1,
    ;
}

/// A point splits a triangle into three.
proof fn lemma_split(a: (int, int), b: (int, int), c: (int, int), p: (int, int))
    ensures
        cross(b, c, p) + cross(c, a, p) + cross(a, b, p) == cross(a, b, c),
{
    let (a0, a1, b0, b1) = (a.0, a.1, b.0, b.1);
    let (c0, c1, p0, p1) = (c.0, c.1, p.0, p.1);
    lemma_expanded(b0, b1, c0, c1, p0, p1);
    lemma_expanded(c0, c1, a0, a1, p0, p1);
    lemma_expanded(a0, a1, b0, b1, p0, p1);
    lemma_expanded(a0, a1, b0, b1, c0, c1);
    assert(a0 * b1 == b1 * a0 && b0 * a1 == a1 * b0 && a0 * c1 == c1 * a0 && c0 * a1 == a1 * c0
        && b0 * c1 == c1 * b0 && c0 * b1 == b1 * c0) by (nonlinear_arith);
}

proof fn lemma_expanded(a0: int, a1: int, b0: int, b1: int, c0: int, c1: int)
    ensures
        (b0 - a0) * (c1 - a1) - (b1 - a1) * (c0 - a0) == b0 * c1 - b0 * a1 - a0 * c1 - b1 * c0 + b1
            * a0 + a1 * c0,
{
    assert((b0 - a0) * (c1 - a1) == b0 * c1 - b0 * a1 - a0 * c1 + a0 * a1) by (nonlinear_arith);
    assert((b1 - a1) * (c0 - a0) == b1 * c0 - b1 * a0 - a1 * c0 + a1 * a0) by (nonlinear_arith);
    assert(a0 * a1 == a1 * a0) by (nonlinear_arith);
}

/// A shaded channel lies between the least and the greatest of the three it is mixed
/// from, if the weights are those of a point inside: not negative, and 4096 together.
pub proof fn law_mixed(c0: u8, c1: u8, c2: u8, w0: i32, w1: i32, w2: i32)
    requires
        0 <= w0,
        0 <= w1,
        0 <= w2,
        w0 + w1 + w2 == 4096,
    ensures
        mixed(c0, c1, c2, w0, w1, w2) == (c0 * w0 + c1 * w1 + c2 * w2) / 4096,
{
    assert(0 <= c0 * w0 <= 255 * w0) by (nonlinear_arith)
        requires
            0 <= c0 <= 255,
            0 <= w0,
    ;
    assert(0 <= c1 * w1 <= 255 * w1) by (nonlinear_arith)
        requires
            0 <= c1 <= 255,
            0 <= w1,
    ;
    assert(0 <= c2 * w2 <= 255 * w2) by (nonlinear_arith)
        requires
            0 <= c2 <= 255,
            0 <= w2,
    ;
    let sum = (c0 * w0 + c1 * w1 + c2 * w2) as i32;
    lemma_shifted_down(sum);
}

proof fn lemma_shifted_down(s: i32)
    by (bit_vector)
    ensures
        0 <= s <= 0x10_0000 ==> (s >> 12u32) as u32 == (s as u32) / 4096 && 0 <= s >> 12u32,
{
}

/// The weights of a covered point: each is 4096 times the share of the area that lies
/// opposite its corner, rounded down. The area is bounded as far as this is exact.
pub proof fn law_weights(p0: (i32, i32), p1: (i32, i32), p2: (i32, i32), x: i32, y: i32)
    requires
        near(p0),
        near(p1),
        near(p2),
        near((x, y)),
        0 < cross(exact(p0), exact(p1), exact(p2)) < 0x8_0000,
        wound(p0, p1, p2).covers(x, y),
    ensures
        ({
            let (a, b, c) = (exact(p0), exact(p1), exact(p2));
            let p = (x as int, y as int);
            let t = wound(p0, p1, p2);
            &&& t.weight0(x, y) == cross(b, c, p) * 4096 / cross(a, b, c)
            &&& t.weight1(x, y) == cross(c, a, p) * 4096 / cross(a, b, c)
            &&& t.weight0(x, y) >= 0 && t.weight1(x, y) >= 0
            &&& t.weight0(x, y) + t.weight1(x, y) <= 4096
        }),
{
    let (a, b, c) = (exact(p0), exact(p1), exact(p2));
    let p = (x as int, y as int);
    law_covered(p0, p1, p2, x, y);
    law_area(p0, p1, p2);
    law_area(p1, p2, (x, y));
    law_area(p2, p0, (x, y));
    let (whole, e0, e1) = (cross(a, b, c), cross(b, c, p), cross(c, a, p));
    lemma_shares(e0, e1, whole);
}

proof fn lemma_shares(e0: int, e1: int, whole: int)
    by (nonlinear_arith)
    requires
        0 <= e0,
        0 <= e1,
        e0 + e1 <= whole,
        whole > 0,
    ensures
        0 <= e0 * 4096 / whole <= 4096,
        0 <= e1 * 4096 / whole <= 4096,
        e0 * 4096 / whole + e1 * 4096 / whole <= 4096,
{
    let (q0, q1) = (e0 * 4096 / whole, e1 * 4096 / whole);
    assert(q0 * whole <= e0 * 4096);
    assert(q1 * whole <= e1 * 4096);
    assert((q0 + q1) * whole <= 4096 * whole);
}

/// One channel of a colour word: red, green and blue from the lowest byte up.
pub open spec fn channel(c: u32, i: int) -> int {
    if i == 0 {
        c as int % 0x100
    } else if i == 1 {
        c as int / 0x100 % 0x100
    } else {
        c as int / 0x1_0000 % 0x100
    }
}

/// Three channels of colour words mixed by weights that make up 4096.
pub open spec fn blend(c0: u32, c1: u32, c2: u32, w0: int, w1: int, i: int) -> int {
    (channel(c0, i) * w0 + channel(c1, i) * w1 + channel(c2, i) * (4096 - w0 - w1)) / 4096
}

/// The pixel of a mixed colour.
pub open spec fn blended(c0: u32, c1: u32, c2: u32, w0: int, w1: int) -> int {
    blend(c0, c1, c2, w0, w1, 0) / 8 + blend(c0, c1, c2, w0, w1, 1) / 8 * 32 + blend(
        c0,
        c1,
        c2,
        w0,
        w1,
        2,
    ) / 8 * 1024
}

/// A covered point of a shaded triangle: each corner's colour counts by the share of the
/// area that lies opposite it, in 4096ths rounded down, and one corner takes what is left.
pub proof fn law_shaded_point(
    p0: (i32, i32),
    p1: (i32, i32),
    p2: (i32, i32),
    c0: u32,
    c1: u32,
    c2: u32,
    x: i32,
    y: i32,
)
    requires
        near(p0),
        near(p1),
        near(p2),
        near((x, y)),
        -0x8_0000 < cross(exact(p0), exact(p1), exact(p2)) < 0x8_0000,
        cross(exact(p0), exact(p1), exact(p2)) != 0,
        wound(p0, p1, p2).covers(x, y),
    ensures
        ({
            let (a, b, c) = (exact(p0), exact(p1), exact(p2));
            let p = (x as int, y as int);
            let whole = cross(a, b, c);
            let shading = (Shading::Gouraud { c0, c1, c2 }).arranged(edge_area(p0, p1, p2));
            let pixel = wound(p0, p1, p2).shade(shading, x, y);
            &&& whole > 0 ==> pixel == blended(
                c0,
                c1,
                c2,
                cross(b, c, p) * 4096 / whole,
                cross(c, a, p) * 4096 / whole,
            )
            &&& whole < 0 ==> pixel == blended(
                c0,
                c2,
                c1,
                -cross(b, c, p) * 4096 / (-whole),
                -cross(a, b, p) * 4096 / (-whole),
            )
        }),
{
    let (a, b, c) = (exact(p0), exact(p1), exact(p2));
    let p = (x as int, y as int);
    law_area(p0, p1, p2);
    if cross(a, b, c) > 0 {
        law_weights(p0, p1, p2, x, y);
        let t = wound(p0, p1, p2);
        lemma_blended(c0, c1, c2, t.weight0(x, y), t.weight1(x, y));
    } else {
        lemma_swapped(a, b, c);
        law_area(p0, p2, p1);
        assert(wound(p0, p1, p2) == wound(p0, p2, p1));
        law_weights(p0, p2, p1, x, y);
        lemma_turned(b, c, p);
        lemma_turned(a, b, p);
        let t = wound(p0, p2, p1);
        lemma_blended(c0, c2, c1, t.weight0(x, y), t.weight1(x, y));
    }
}

proof fn lemma_swapped(a: (int, int), b: (int, int), c: (int, int))
    ensures
        cross(a, c, b) == -cross(a, b, c),
{
    assert((c.0 - a.0) * (b.1 - a.1) == (b.1 - a.1) * (c.0 - a.0)) by (nonlinear_arith);
    assert((c.1 - a.1) * (b.0 - a.0) == (b.0 - a.0) * (c.1 - a.1)) by (nonlinear_arith);
}

proof fn lemma_blended(c0: u32, c1: u32, c2: u32, w0: i32, w1: i32)
    requires
        0 <= w0,
        0 <= w1,
        w0 + w1 <= 4096,
    ensures
        (Shading::Gouraud { c0, c1, c2 }).color(
            w0,
            w1,
            4096i32.wrapping_sub(w0).wrapping_sub(w1),
        ) == blended(c0, c1, c2, w0 as int, w1 as int),
{
    let w2 = (4096 - w0 - w1) as i32;
    lemma_channel(c0);
    lemma_channel(c1);
    lemma_channel(c2);
    let r = lemma_blend(c0, c1, c2, w0, w1, w2, 0);
    let g = lemma_blend(c0, c1, c2, w0, w1, w2, 1);
    let b = lemma_blend(c0, c1, c2, w0, w1, w2, 2);
    lemma_color_parts(r as u16, g as u16, b as u16);
    assert(color15(r, g, b) == r / 8 + g / 8 * 32 + b / 8 * 1024);
}

proof fn lemma_channel(c: u32)
    ensures
        (c & 0xFF) as u8 == channel(c, 0),
        ((c >> 8) & 0xFF) as u8 == channel(c, 1),
        ((c >> 16) & 0xFF) as u8 == channel(c, 2),
{
    lemma_parts_of(c);
}

proof fn lemma_blend(c0: u32, c1: u32, c2: u32, w0: i32, w1: i32, w2: i32, i: int) -> (m: u8)
    requires
        0 <= w0,
        0 <= w1,
        w0 + w1 <= 4096,
        w2 == 4096 - w0 - w1,
        0 <= i < 3,
    ensures
        m == mixed(
            channel(c0, i) as u8,
            channel(c1, i) as u8,
            channel(c2, i) as u8,
            w0,
            w1,
            w2,
        ),
        m == blend(c0, c1, c2, w0 as int, w1 as int, i),
{
    let (a, b, c) = (channel(c0, i) as u8, channel(c1, i) as u8, channel(c2, i) as u8);
    law_mixed(a, b, c, w0, w1, w2);
    mixed(a, b, c, w0, w1, w2)
}

/// A triangle covers every mean of its corners: every point of which a multiple is a sum
/// of the corners, taken as often together.
pub proof fn law_covers_means(
    p0: (i32, i32),
    p1: (i32, i32),
    p2: (i32, i32),
    x: i32,
    y: i32,
    k0: int,
    k1: int,
    k2: int,
)
    requires
        near(p0),
        near(p1),
        near(p2),
        near((x, y)),
        cross(exact(p0), exact(p1), exact(p2)) != 0,
        k0 >= 0,
        k1 >= 0,
        k2 >= 0,
        k0 + k1 + k2 > 0,
        (k0 + k1 + k2) * x == k0 * p0.0 + k1 * p1.0 + k2 * p2.0,
        (k0 + k1 + k2) * y == k0 * p0.1 + k1 * p1.1 + k2 * p2.1,
    ensures
        wound(p0, p1, p2).covers(x, y),
{
    let (a, b, c) = (exact(p0), exact(p1), exact(p2));
    let p = (x as int, y as int);
    let n = k0 + k1 + k2;
    law_covered(p0, p1, p2, x, y);
    assert(n * p.0 == k0 * a.0 + k1 * b.0 + k2 * c.0);
    assert(n * p.1 == k0 * a.1 + k1 * b.1 + k2 * c.1);
    lemma_mean(a, b, c, p, k0, k1, k2);
    assert(n * p.0 == k1 * b.0 + k2 * c.0 + k0 * a.0);
    lemma_mean(b, c, a, p, k1, k2, k0);
    lemma_mean(c, a, b, p, k2, k0, k1);
    lemma_turns(a, b, c);
    let whole = cross(a, b, c);
    lemma_same_sign(n, cross(b, c, p), k0, whole);
    lemma_same_sign(n, cross(c, a, p), k1, whole);
    lemma_same_sign(n, cross(a, b, p), k2, whole);
}

proof fn lemma_same_sign(n: int, e: int, k: int, whole: int)
    by (nonlinear_arith)
    requires
        n > 0,
        k >= 0,
        n * e == k * whole,
    ensures
        whole > 0 ==> e >= 0,
        whole < 0 ==> e <= 0,
{
}

proof fn lemma_turns(a: (int, int), b: (int, int), c: (int, int))
    ensures
        cross(b, c, a) == cross(a, b, c),
        cross(c, a, b) == cross(a, b, c),
{
    lemma_turned(a, b, c);
    lemma_swapped(b, a, c);
    lemma_turned(a, c, b);
    lemma_swapped(a, b, c);
}

/// The triangle opposite a corner, at a mean of the corners.
proof fn lemma_mean(
    a: (int, int),
    b: (int, int),
    c: (int, int),
    p: (int, int),
    k0: int,
    k1: int,
    k2: int,
)
    requires
        (k0 + k1 + k2) * p.0 == k0 * a.0 + k1 * b.0 + k2 * c.0,
        (k0 + k1 + k2) * p.1 == k0 * a.1 + k1 * b.1 + k2 * c.1,
    ensures
        (k0 + k1 + k2) * cross(b, c, p) == k0 * cross(a, b, c),
{
    let n = k0 + k1 + k2;
    let (u, v) = (c.0 - b.0, c.1 - b.1);
    let (s, t) = (a.0 - b.0, a.1 - b.1);
    let (dx, dy) = (p.0 - b.0, p.1 - b.1);
    assert(n * dx == k0 * s + k2 * u) by (nonlinear_arith)
        requires
            n == k0 + k1 + k2,
            n * p.0 == k0 * a.0 + k1 * b.0 + k2 * c.0,
            dx == p.0 - b.0,
            s == a.0 - b.0,
            u == c.0 - b.0,
    ;
    assert(n * dy == k0 * t + k2 * v) by (nonlinear_arith)
        requires
            n == k0 + k1 + k2,
            n * p.1 == k0 * a.1 + k1 * b.1 + k2 * c.1,
            dy == p.1 - b.1,
            t == a.1 - b.1,
            v == c.1 - b.1,
    ;
    assert(n * (u * dy - v * dx) == u * (n * dy) - v * (n * dx)) by (nonlinear_arith);
    assert(u * (k0 * t + k2 * v) - v * (k0 * s + k2 * u) == k0 * (u * t - v * s))
        by (nonlinear_arith);
    lemma_turned(a, b, c);
    lemma_swapped(b, a, c);
}

/// And every point that it covers is such a mean: the shares of the area say how often
/// each corner counts.
pub proof fn law_covered_is_mean(p0: (i32, i32), p1: (i32, i32), p2: (i32, i32), x: i32, y: i32)
    requires
        near(p0),
        near(p1),
        near(p2),
        near((x, y)),
        cross(exact(p0), exact(p1), exact(p2)) > 0,
        wound(p0, p1, p2).covers(x, y),
    ensures
        ({
            let (a, b, c) = (exact(p0), exact(p1), exact(p2));
            let p = (x as int, y as int);
            let (k0, k1, k2) = (cross(b, c, p), cross(c, a, p), cross(a, b, p));
            &&& k0 >= 0 && k1 >= 0 && k2 >= 0 && k0 + k1 + k2 > 0
            &&& (k0 + k1 + k2) * x == k0 * p0.0 + k1 * p1.0 + k2 * p2.0
            &&& (k0 + k1 + k2) * y == k0 * p0.1 + k1 * p1.1 + k2 * p2.1
        }),
{
    let (a, b, c) = (exact(p0), exact(p1), exact(p2));
    let p = (x as int, y as int);
    law_covered(p0, p1, p2, x, y);
    let (s, t) = (a.0 - p.0, a.1 - p.1);
    let (u, v) = (b.0 - p.0, b.1 - p.1);
    let (w, z) = (c.0 - p.0, c.1 - p.1);
    lemma_from_point(b, c, p);
    lemma_from_point(c, a, p);
    lemma_from_point(a, b, p);
    let (k0, k1, k2) = (cross(b, c, p), cross(c, a, p), cross(a, b, p));
    assert((u * z - v * w) * s + (w * t - z * s) * u + (s * v - t * u) * w == 0)
        by (nonlinear_arith);
    assert((u * z - v * w) * t + (w * t - z * s) * v + (s * v - t * u) * z == 0)
        by (nonlinear_arith);
    assert((k0 + k1 + k2) * p.0 == k0 * a.0 + k1 * b.0 + k2 * c.0) by (nonlinear_arith)
        requires
            k0 * s + k1 * u + k2 * w == 0,
            s == a.0 - p.0,
            u == b.0 - p.0,
            w == c.0 - p.0,
    ;
    assert((k0 + k1 + k2) * p.1 == k0 * a.1 + k1 * b.1 + k2 * c.1) by (nonlinear_arith)
        requires
            k0 * t + k1 * v + k2 * z == 0,
            t == a.1 - p.1,
            v == b.1 - p.1,
            z == c.1 - p.1,
    ;
}

/// The area of a triangle, seen from its last corner.
proof fn lemma_from_point(a: (int, int), b: (int, int), p: (int, int))
    ensures
        cross(a, b, p) == (a.0 - p.0) * (b.1 - p.1) - (a.1 - p.1) * (b.0 - p.0),
{
    let (s, t) = (a.0 - p.0, a.1 - p.1);
    let (u, v) = (b.0 - p.0, b.1 - p.1);
    assert((u - s) * (-t) - (v - t) * (-s) == s * v - t * u) by (nonlinear_arith);
}

/// The colour that a point function gives a point.
pub open spec fn tint(color: spec_fn(int, int) -> u16, x: int, y: int) -> u16 {
    color(x, y)
}

proof fn lemma_row_tinted(
    v: Seq<u16>,
    x: int,
    y: int,
    n: nat,
    f: spec_fn(Seq<u16>, int, int) -> Seq<u16>,
    hit: spec_fn(int, int) -> bool,
    color: spec_fn(int, int) -> u16,
    k: int,
)
    requires
        v.len() == VRAM_PIXELS,
        0 <= x,
        x + n <= 1024,
        0 <= y < 512,
        0 <= k < VRAM_PIXELS,
        forall|px: int|
            x <= px < x + n ==> pointwise(
                f,
                px,
                y,
                #[trigger] hits(hit, px, y),
                tint(color, px, y),
            ),
    ensures
        scan_row(v, x, y, n, f).len() == VRAM_PIXELS,
        scan_row(v, x, y, n, f)[k] == (if k / 1024 == y && x <= k % 1024 < x + n && hits(
            hit,
            k % 1024,
            y,
        ) {
            tint(color, k % 1024, y)
        } else {
            v[k]
        }),
    decreases n,
{
    if n > 0 {
        let m = (n - 1) as nat;
        assert forall|px: int| x <= px < x + m implies pointwise(
            f,
            px,
            y,
            #[trigger] hits(hit, px, y),
            tint(color, px, y),
        ) by {}
        lemma_row_tinted(v, x, y, m, f, hit, color, k);
        let before = scan_row(v, x, y, m, f);
        assert(pointwise(f, x + m, y, hits(hit, x + m, y), tint(color, x + m, y)));
        assert(f(before, x + m, y) == (if hits(hit, x + m, y) {
            with_pixel(before, x + m, y, tint(color, x + m, y))
        } else {
            before
        }));
    }
}

proof fn lemma_scan_tinted(
    v: Seq<u16>,
    x: int,
    y: int,
    w: nat,
    n: nat,
    f: spec_fn(Seq<u16>, int, int) -> Seq<u16>,
    hit: spec_fn(int, int) -> bool,
    color: spec_fn(int, int) -> u16,
    k: int,
)
    requires
        v.len() == VRAM_PIXELS,
        n > 0 && w > 0 ==> 0 <= x && x + w <= 1024 && 0 <= y && y + n <= 512,
        0 <= k < VRAM_PIXELS,
        forall|px: int, py: int|
            x <= px < x + w && y <= py < y + n ==> pointwise(
                f,
                px,
                py,
                #[trigger] hits(hit, px, py),
                tint(color, px, py),
            ),
    ensures
        scan(v, x, y, w, n, f).len() == VRAM_PIXELS,
        scan(v, x, y, w, n, f)[k] == (if x <= k % 1024 < x + w && y <= k / 1024 < y + n && hits(
            hit,
            k % 1024,
            k / 1024,
        ) {
            tint(color, k % 1024, k / 1024)
        } else {
            v[k]
        }),
    decreases n,
{
    if n > 0 {
        let m = (n - 1) as nat;
        lemma_scan_tinted(v, x, y, w, m, f, hit, color, k);
        if w > 0 {
            lemma_row_tinted(scan(v, x, y, w, m, f), x, y + m, w, f, hit, color, k);
        }
    }
}

/// A shaded triangle gives each covered point of its clipped box its own colour and
/// changes nothing else.
pub proof fn law_shaded_triangle(
    v: Seq<u16>,
    area: DrawArea,
    p0: (i32, i32),
    p1: (i32, i32),
    p2: (i32, i32),
    shading: Shading,
    scale: u32,
    k: int,
)
    requires
        v.len() == VRAM_PIXELS,
        usable_scale(scale),
        on_screen(area),
        0 <= k < VRAM_PIXELS,
    ensures
        triangle_drawn(v, area, p0, p1, p2, shading, scale).len() == VRAM_PIXELS,
        ({
            let (x, y) = ((k % 1024) as i32, (k / 1024) as i32);
            let t = wound(p0, p1, p2);
            triangle_drawn(v, area, p0, p1, p2, shading, scale)[k] == (if edge_area(p0, p1, p2) != 0
                && area.inside(x, y) && min3(p0.0, p1.0, p2.0) <= x <= max3(p0.0, p1.0, p2.0)
                && min3(p0.1, p1.1, p2.1) <= y <= max3(p0.1, p1.1, p2.1) && t.covers(x, y) {
                t.shade(shading.arranged(edge_area(p0, p1, p2)), x, y)
            } else {
                v[k]
            })
        }),
{
    let min_x = max3(min3(p0.0, p1.0, p2.0), area.left, area.left);
    let max_x = min3(max3(p0.0, p1.0, p2.0), area.right, area.right);
    let min_y = max3(min3(p0.1, p1.1, p2.1), area.top, area.top);
    let max_y = min3(max3(p0.1, p1.1, p2.1), area.bottom, area.bottom);
    if edge_area(p0, p1, p2) != 0 {
        let t = wound(p0, p1, p2);
        let sh = shading.arranged(edge_area(p0, p1, p2));
        let f = triangle_point(t, sh, scale);
        let hit = |x: int, y: int| t.covers(x as i32, y as i32);
        let color = |x: int, y: int| t.shade(sh, x as i32, y as i32);
        let (w, n) = (span(min_x as int, max_x + 1), span(min_y as int, max_y + 1));
        assert forall|px: int, py: int|
            min_x <= px < min_x + w && min_y <= py < min_y + n implies pointwise(
            f,
            px,
            py,
            #[trigger] hits(hit, px, py),
            tint(color, px, py),
        ) by {
            assert forall|u: Seq<u16>| u.len() == VRAM_PIXELS implies #[trigger] f(u, px, py) == (
            if hits(hit, px, py) {
                with_pixel(u, px, py, tint(color, px, py))
            } else {
                u
            }) by {
                law_painted_is_native(u, px as i32, py as i32, tint(color, px, py), scale);
            }
        }
        lemma_scan_tinted(v, min_x as int, min_y as int, w, n, f, hit, color, k);
    }
}

proof fn lemma_drawn_length(
    v: Seq<u16>,
    area: DrawArea,
    p0: (i32, i32),
    p1: (i32, i32),
    p2: (i32, i32),
    shading: Shading,
    scale: u32,
)
    requires
        v.len() == VRAM_PIXELS,
        usable_scale(scale),
        on_screen(area),
    ensures
        triangle_drawn(v, area, p0, p1, p2, shading, scale).len() == VRAM_PIXELS,
{
    law_shaded_triangle(v, area, p0, p1, p2, shading, scale, 0);
}

/// Whether the triangle of three vertex words shows at a point: it has an area and covers
/// the point, inside the draw area.
pub open spec fn shows(
    area: DrawArea,
    offset: (i16, i16),
    v0: u32,
    v1: u32,
    v2: u32,
    x: i32,
    y: i32,
) -> bool {
    let (p0, p1, p2) = (vertex(v0, offset), vertex(v1, offset), vertex(v2, offset));
    &&& edge_area(p0, p1, p2) != 0
    &&& area.inside(x, y)
    &&& min3(p0.0, p1.0, p2.0) <= x <= max3(p0.0, p1.0, p2.0)
    &&& min3(p0.1, p1.1, p2.1) <= y <= max3(p0.1, p1.1, p2.1)
    &&& wound(p0, p1, p2).covers(x, y)
}

/// A flat triangle has the colour of its colour word wherever it shows.
pub proof fn law_flat_triangle_words(
    v: Seq<u16>,
    color: u32,
    v0: u32,
    v1: u32,
    v2: u32,
    area: DrawArea,
    offset: (i16, i16),
    scale: u32,
    k: int,
)
    requires
        v.len() == VRAM_PIXELS,
        usable_scale(scale),
        on_screen(area),
        0 <= k < VRAM_PIXELS,
    ensures
        flat_triangle_drawn(v, color, v0, v1, v2, area, offset, scale)[k] == (if shows(
            area,
            offset,
            v0,
            v1,
            v2,
            (k % 1024) as i32,
            (k / 1024) as i32,
        ) {
            word_color15(color)
        } else {
            v[k]
        }),
{
    let (p0, p1, p2) = (vertex(v0, offset), vertex(v1, offset), vertex(v2, offset));
    law_shaded_triangle(
        v,
        area,
        p0,
        p1,
        p2,
        Shading::Flat { pixel: word_color15(color) },
        scale,
        k,
    );
}

/// A flat quad has its colour wherever the triangle of its first three corners or that of
/// its last three shows, and nowhere else.
pub proof fn law_flat_quad(
    v: Seq<u16>,
    color: u32,
    corners: (u32, u32, u32, u32),
    area: DrawArea,
    offset: (i16, i16),
    scale: u32,
    k: int,
)
    requires
        v.len() == VRAM_PIXELS,
        usable_scale(scale),
        on_screen(area),
        0 <= k < VRAM_PIXELS,
    ensures
        ({
            let (v0, v1, v2, v3) = corners;
            let (x, y) = ((k % 1024) as i32, (k / 1024) as i32);
            flat_quad_drawn(v, color, corners, area, offset, scale)[k] == (if shows(
                area,
                offset,
                v0,
                v1,
                v2,
                x,
                y,
            ) || shows(area, offset, v1, v2, v3, x, y) {
                word_color15(color)
            } else {
                v[k]
            })
        }),
{
    let (v0, v1, v2, v3) = corners;
    let first = flat_triangle_drawn(v, color, v0, v1, v2, area, offset, scale);
    lemma_drawn_length(
        v,
        area,
        vertex(v0, offset),
        vertex(v1, offset),
        vertex(v2, offset),
        Shading::Flat { pixel: word_color15(color) },
        scale,
    );
    law_flat_triangle_words(v, color, v0, v1, v2, area, offset, scale, k);
    law_flat_triangle_words(first, color, v1, v2, v3, area, offset, scale, k);
}

/// The colour of a point of a triangle with a colour word and a vertex word for each
/// corner.
pub open spec fn shown_shade(
    a: (u32, u32),
    b: (u32, u32),
    c: (u32, u32),
    offset: (i16, i16),
    x: i32,
    y: i32,
) -> u16 {
    let (p0, p1, p2) = (vertex(a.1, offset), vertex(b.1, offset), vertex(c.1, offset));
    wound(p0, p1, p2).shade(
        (Shading::Gouraud { c0: a.0, c1: b.0, c2: c.0 }).arranged(edge_area(p0, p1, p2)),
        x,
        y,
    )
}

/// A shaded triangle has its own colour at every point at which it shows.
pub proof fn law_shaded_triangle_words(
    v: Seq<u16>,
    a: (u32, u32),
    b: (u32, u32),
    c: (u32, u32),
    area: DrawArea,
    offset: (i16, i16),
    scale: u32,
    k: int,
)
    requires
        v.len() == VRAM_PIXELS,
        usable_scale(scale),
        on_screen(area),
        0 <= k < VRAM_PIXELS,
    ensures
        ({
            let (x, y) = ((k % 1024) as i32, (k / 1024) as i32);
            shaded_triangle_drawn(v, a, b, c, area, offset, scale)[k] == (if shows(
                area,
                offset,
                a.1,
                b.1,
                c.1,
                x,
                y,
            ) {
                shown_shade(a, b, c, offset, x, y)
            } else {
                v[k]
            })
        }),
{
    law_shaded_triangle(
        v,
        area,
        vertex(a.1, offset),
        vertex(b.1, offset),
        vertex(c.1, offset),
        Shading::Gouraud { c0: a.0, c1: b.0, c2: c.0 },
        scale,
        k,
    );
}

/// A shaded quad shows the triangle of its last three corners on top of that of its first
/// three.
pub proof fn law_shaded_quad(
    v: Seq<u16>,
    corners: ((u32, u32), (u32, u32), (u32, u32), (u32, u32)),
    area: DrawArea,
    offset: (i16, i16),
    scale: u32,
    k: int,
)
    requires
        v.len() == VRAM_PIXELS,
        usable_scale(scale),
        on_screen(area),
        0 <= k < VRAM_PIXELS,
    ensures
        ({
            let (a, b, c, d) = corners;
            let (x, y) = ((k % 1024) as i32, (k / 1024) as i32);
            shaded_quad_drawn(v, corners, area, offset, scale)[k] == (if shows(
                area,
                offset,
                b.1,
                c.1,
                d.1,
                x,
                y,
            ) {
                shown_shade(b, c, d, offset, x, y)
            } else if shows(area, offset, a.1, b.1, c.1, x, y) {
                shown_shade(a, b, c, offset, x, y)
            } else {
                v[k]
            })
        }),
{
    let (a, b, c, d) = corners;
    let first = shaded_triangle_drawn(v, a, b, c, area, offset, scale);
    lemma_drawn_length(
        v,
        area,
        vertex(a.1, offset),
        vertex(b.1, offset),
        vertex(c.1, offset),
        Shading::Gouraud { c0: a.0, c1: b.0, c2: c.0 },
        scale,
    );
    law_shaded_triangle_words(v, a, b, c, area, offset, scale, k);
    law_shaded_triangle_words(first, b, c, d, area, offset, scale, k);
}

} // verus!
