//! What a triangle does not depend on: the order of its vertices, and, where its
//! colours agree, the way it is shaded.

use crate::gpu::commands::word_color15;
use crate::gpu::rasterizer::{
    edge_area, flat_triangle_drawn, mixed, shaded_triangle_drawn, triangle_drawn, triangle_point,
    vertex, wound, DrawArea, Shading,
};
use vstd::prelude::*;

verus! {

/// Two machine integers that differ by a multiple of their range are equal.
proof fn lemma_same_word(x: i32, y: i32, k: int)
    requires
        x - y == k * 0x1_0000_0000,
    ensures
        x == y,
{
}

/// A wrapping difference differs from the exact one by a multiple of the range.
proof fn lemma_difference(x: i32, y: i32) -> (k: int)
    ensures
        x.wrapping_sub(y) == x - y + k * 0x1_0000_0000,
{
    (x.wrapping_sub(y) - (x - y)) / 0x1_0000_0000
}

/// A wrapping product differs from the exact one by a multiple of the range.
proof fn lemma_product(x: i32, y: i32) -> (k: int)
    ensures
        x.wrapping_mul(y) == x * y + k * 0x1_0000_0000,
{
    let p = x * y;
    assert(p == 0x1_0000_0000 * (p / 0x1_0000_0000) + p % 0x1_0000_0000);
    if p % 0x1_0000_0000 > i32::MAX {
        -(p / 0x1_0000_0000) - 1
    } else {
        -(p / 0x1_0000_0000)
    }
}

proof fn lemma_shifted_product(x: int, y: int, i: int, j: int, m: int)
    ensures
        (x + i * m) * (y + j * m) == x * y + (x * j + i * y + i * j * m) * m,
{
    let (a, b) = (i * m, j * m);
    assert((x + a) * (y + b) == x * y + x * b + a * y + a * b) by (nonlinear_arith);
    assert(x * b == x * j * m) by (nonlinear_arith)
        requires
            b == j * m,
    ;
    assert(a * y == i * y * m) by (nonlinear_arith)
        requires
            a == i * m,
    ;
    assert(a * b == i * j * m * m) by (nonlinear_arith)
        requires
            a == i * m,
            b == j * m,
    ;
    let (s, t, u) = (x * j, i * y, i * j * m);
    assert((s + t + u) * m == s * m + t * m + u * m) by (nonlinear_arith);
}

/// The signed area differs from the exact one by a multiple of the range.
proof fn lemma_area(a: (i32, i32), b: (i32, i32), c: (i32, i32)) -> (k: int)
    ensures
        edge_area(a, b, c) == (b.0 - a.0) * (c.1 - a.1) - (b.1 - a.1) * (c.0 - a.0) + k
            * 0x1_0000_0000,
{
    let m = 0x1_0000_0000int;
    let i0 = lemma_difference(b.0, a.0);
    let j0 = lemma_difference(c.1, a.1);
    let i1 = lemma_difference(b.1, a.1);
    let j1 = lemma_difference(c.0, a.0);
    let (u0, v0) = (b.0.wrapping_sub(a.0), c.1.wrapping_sub(a.1));
    let (u1, v1) = (b.1.wrapping_sub(a.1), c.0.wrapping_sub(a.0));
    let p0 = lemma_product(u0, v0);
    let p1 = lemma_product(u1, v1);
    lemma_shifted_product(b.0 - a.0, c.1 - a.1, i0, j0, m);
    lemma_shifted_product(b.1 - a.1, c.0 - a.0, i1, j1, m);
    let d = lemma_difference(u0.wrapping_mul(v0), u1.wrapping_mul(v1));
    let q0 = (b.0 - a.0) * j0 + i0 * (c.1 - a.1) + i0 * j0 * m;
    let q1 = (b.1 - a.1) * j1 + i1 * (c.0 - a.0) + i1 * j1 * m;
    q0 + p0 - q1 - p1 + d
}

proof fn lemma_exact_area(a0: int, a1: int, b0: int, b1: int, c0: int, c1: int)
    by (nonlinear_arith)
    ensures
        (b0 - a0) * (c1 - a1) - (b1 - a1) * (c0 - a0) == (c0 - b0) * (a1 - b1) - (c1 - b1) * (a0
            - b0),
        (b0 - a0) * (c1 - a1) - (b1 - a1) * (c0 - a0) == -((c0 - a0) * (b1 - a1) - (c1 - a1) * (b0
            - a0)),
{
}

/// The area is the same for every order of the vertices that keeps the direction,
/// and its negative for the others.
proof fn lemma_area_orders(a: (i32, i32), b: (i32, i32), c: (i32, i32))
    ensures
        edge_area(b, c, a) == edge_area(a, b, c),
        edge_area(a, b, c) != i32::MIN ==> edge_area(a, c, b) == -edge_area(a, b, c),
{
    let k = lemma_area(a, b, c);
    let l = lemma_area(b, c, a);
    let n = lemma_area(a, c, b);
    lemma_exact_area(a.0 as int, a.1 as int, b.0 as int, b.1 as int, c.0 as int, c.1 as int);
    lemma_same_word(edge_area(b, c, a), edge_area(a, b, c), l - k);
    if edge_area(a, b, c) != i32::MIN {
        lemma_same_word(edge_area(a, c, b), (-edge_area(a, b, c)) as i32, n + k);
    }
}

/// Two flat triangles with the same box that cover the same points are drawn
/// alike.
proof fn lemma_same_cover(
    p: ((i32, i32), (i32, i32), (i32, i32)),
    q: ((i32, i32), (i32, i32), (i32, i32)),
    pixel: u16,
    scale: u32,
)
    requires
        forall|x: i32, y: i32|
            #[trigger] wound(p.0, p.1, p.2).covers(x, y) == wound(q.0, q.1, q.2).covers(x, y),
    ensures
        triangle_point(wound(p.0, p.1, p.2), Shading::Flat { pixel }, scale) == triangle_point(
            wound(q.0, q.1, q.2),
            Shading::Flat { pixel },
            scale,
        ),
{
    let f = triangle_point(wound(p.0, p.1, p.2), Shading::Flat { pixel }, scale);
    let g = triangle_point(wound(q.0, q.1, q.2), Shading::Flat { pixel }, scale);
    assert forall|v: Seq<u16>, x: int, y: int| #[trigger] f(v, x, y) == g(v, x, y) by {
        assert(wound(p.0, p.1, p.2).covers(x as i32, y as i32) == wound(q.0, q.1, q.2).covers(
            x as i32,
            y as i32,
        ));
    }
    assert(f =~= g);
}

/// A flat triangle does not depend on which vertex comes first, nor on the
/// direction.
proof fn lemma_flat_orders(
    v: Seq<u16>,
    area: DrawArea,
    p0: (i32, i32),
    p1: (i32, i32),
    p2: (i32, i32),
    pixel: u16,
    scale: u32,
)
    requires
        edge_area(p0, p1, p2) != i32::MIN,
    ensures
        triangle_drawn(v, area, p1, p2, p0, (Shading::Flat { pixel }), scale) == triangle_drawn(
            v,
            area,
            p0,
            p1,
            p2,
            Shading::Flat { pixel },
            scale,
        ),
        triangle_drawn(v, area, p0, p2, p1, (Shading::Flat { pixel }), scale) == triangle_drawn(
            v,
            area,
            p0,
            p1,
            p2,
            Shading::Flat { pixel },
            scale,
        ),
{
    lemma_area_orders(p0, p1, p2);
    lemma_same_cover((p1, p2, p0), (p0, p1, p2), pixel, scale);
    if edge_area(p0, p1, p2) != 0 {
        lemma_same_cover((p0, p2, p1), (p0, p1, p2), pixel, scale);
    }
}

/// A flat triangle is the same for all six orders of its vertices. The one area
/// that leaves the direction open is the smallest machine integer, which has no
/// negative.
pub proof fn law_flat_triangle_order(
    v: Seq<u16>,
    color: u32,
    v0: u32,
    v1: u32,
    v2: u32,
    area: DrawArea,
    offset: (i16, i16),
    scale: u32,
)
    requires
        edge_area(vertex(v0, offset), vertex(v1, offset), vertex(v2, offset)) != i32::MIN,
    ensures
        ({
            let drawn = flat_triangle_drawn(v, color, v0, v1, v2, area, offset, scale);
            &&& flat_triangle_drawn(v, color, v1, v2, v0, area, offset, scale) == drawn
            &&& flat_triangle_drawn(v, color, v2, v0, v1, area, offset, scale) == drawn
            &&& flat_triangle_drawn(v, color, v0, v2, v1, area, offset, scale) == drawn
            &&& flat_triangle_drawn(v, color, v2, v1, v0, area, offset, scale) == drawn
            &&& flat_triangle_drawn(v, color, v1, v0, v2, area, offset, scale) == drawn
        }),
{
    let (p0, p1, p2) = (vertex(v0, offset), vertex(v1, offset), vertex(v2, offset));
    let pixel = word_color15(color);
    lemma_area_orders(p0, p1, p2);
    lemma_area_orders(p1, p2, p0);
    lemma_flat_orders(v, area, p0, p1, p2, pixel, scale);
    lemma_flat_orders(v, area, p1, p2, p0, pixel, scale);
    lemma_flat_orders(v, area, p2, p0, p1, pixel, scale);
}

/// A shift undoes a multiplication, and words with the same low 24 bits have the
/// same channels.
proof fn lemma_channels(c: i32, s: i32, a: u32, b: u32)
    by (bit_vector)
    ensures
        0 <= c <= 255 && s == c * 4096 ==> s >> 12 == c,
        a & 0xFF_FFFF == b & 0xFF_FFFF ==> a & 0xFF == b & 0xFF && (a >> 8) & 0xFF == (b >> 8)
            & 0xFF && (a >> 16) & 0xFF == (b >> 16) & 0xFF,
{
}

proof fn lemma_common_factor(c: int, w0: int, w1: int, w2: int, k: int, m: int)
    by (nonlinear_arith)
    requires
        w2 == 4096 - w0 - w1 + k * m,
    ensures
        c * w0 + c * w1 + c * w2 == c * 4096 + c * k * m,
{
}

/// A channel on which the three vertices agree is the same all over the triangle.
proof fn lemma_even_mix(c: u8, w0: i32, w1: i32)
    ensures
        mixed(c, c, c, w0, w1, 4096i32.wrapping_sub(w0).wrapping_sub(w1)) == c,
{
    let m = 0x1_0000_0000int;
    let ch = c as i32;
    let w2 = 4096i32.wrapping_sub(w0).wrapping_sub(w1);
    let i = lemma_difference(4096, w0);
    let j = lemma_difference(4096i32.wrapping_sub(w0), w1);
    let k0 = lemma_product(ch, w0);
    let k1 = lemma_product(ch, w1);
    let k2 = lemma_product(ch, w2);
    lemma_common_factor(ch as int, w0 as int, w1 as int, w2 as int, i + j, m);
    let a = ch.wrapping_mul(w0).wrapping_add(ch.wrapping_mul(w1));
    let s = a.wrapping_add(ch.wrapping_mul(w2));
    let l0 = (a - (ch.wrapping_mul(w0) + ch.wrapping_mul(w1))) / m;
    let l1 = (s - (a + ch.wrapping_mul(w2))) / m;
    assert(s - ch * 4096 == (k0 + k1 + k2 + l0 + l1 + ch * (i + j)) * m);
    lemma_same_word(s, (ch * 4096) as i32, k0 + k1 + k2 + l0 + l1 + ch * (i + j));
    lemma_channels(ch, s, 0, 0);
}

/// A shaded triangle whose three colours agree is the flat triangle of that
/// colour.
pub proof fn law_even_shading(
    v: Seq<u16>,
    c0: u32,
    c1: u32,
    c2: u32,
    v0: u32,
    v1: u32,
    v2: u32,
    area: DrawArea,
    offset: (i16, i16),
    scale: u32,
)
    requires
        c1 & 0xFF_FFFF == c0 & 0xFF_FFFF,
        c2 & 0xFF_FFFF == c0 & 0xFF_FFFF,
    ensures
        shaded_triangle_drawn(v, (c0, v0), (c1, v1), (c2, v2), area, offset, scale)
            == flat_triangle_drawn(v, c0, v0, v1, v2, area, offset, scale),
{
    let (p0, p1, p2) = (vertex(v0, offset), vertex(v1, offset), vertex(v2, offset));
    let t = wound(p0, p1, p2);
    let pixel = word_color15(c0);
    let shading = Shading::Gouraud { c0, c1, c2 };
    let f = triangle_point(t, shading.arranged(edge_area(p0, p1, p2)), scale);
    let g = triangle_point(t, Shading::Flat { pixel }, scale);
    lemma_channels(0, 0, c1, c0);
    lemma_channels(0, 0, c2, c0);
    assert forall|u: Seq<u16>, x: int, y: int| #[trigger] f(u, x, y) == g(u, x, y) by {
        let w0 = t.weight0(x as i32, y as i32);
        let w1 = t.weight1(x as i32, y as i32);
        lemma_even_mix((c0 & 0xFF) as u8, w0, w1);
        lemma_even_mix(((c0 >> 8) & 0xFF) as u8, w0, w1);
        lemma_even_mix(((c0 >> 16) & 0xFF) as u8, w0, w1);
    }
    assert(f =~= g);
}

/// The area of a triangle without extent.
proof fn lemma_no_area(a: (i32, i32), b: (i32, i32))
    ensures
        edge_area(a, b, a) == 0,
        edge_area(a, b, b) == 0,
{
    let (u, v) = (b.0.wrapping_sub(a.0), b.1.wrapping_sub(a.1));
    assert(u * 0 == 0 && v * 0 == 0 && u * v == v * u) by (nonlinear_arith);
}

/// A vertex that has all the weight gives its colour.
proof fn lemma_full_weight(c0: u8, c1: u8, c2: u8)
    ensures
        mixed(c0, c1, c2, 4096, 0, 0) == c0,
        mixed(c0, c1, c2, 0, 4096, 0) == c1,
        mixed(c0, c1, c2, 0, 0, 4096) == c2,
{
    lemma_channels(c0 as i32, (c0 * 4096) as i32, 0, 0);
    lemma_channels(c1 as i32, (c1 * 4096) as i32, 0, 0);
    lemma_channels(c2 as i32, (c2 * 4096) as i32, 0, 0);
}

proof fn lemma_full_colors(c0: u32, c1: u32, c2: u32)
    ensures
        (Shading::Gouraud { c0, c1, c2 }).color(4096, 0, 0) == word_color15(c0),
        (Shading::Gouraud { c0, c1, c2 }).color(0, 4096, 0) == word_color15(c1),
        (Shading::Gouraud { c0, c1, c2 }).color(0, 0, 4096) == word_color15(c2),
{
    lemma_full_weight((c0 & 0xFF) as u8, (c1 & 0xFF) as u8, (c2 & 0xFF) as u8);
    lemma_full_weight(
        ((c0 >> 8) & 0xFF) as u8,
        ((c1 >> 8) & 0xFF) as u8,
        ((c2 >> 8) & 0xFF) as u8,
    );
    lemma_full_weight(
        ((c0 >> 16) & 0xFF) as u8,
        ((c1 >> 16) & 0xFF) as u8,
        ((c2 >> 16) & 0xFF) as u8,
    );
}

/// The weights at the vertices of a triangle with a positive area.
proof fn lemma_vertex_weights(p0: (i32, i32), p1: (i32, i32), p2: (i32, i32))
    requires
        0 < edge_area(p0, p1, p2) < 0x8_0000,
    ensures
        ({
            let t = wound(p0, p1, p2);
            &&& t.weight0(p0.0, p0.1) == 4096 && t.weight1(p0.0, p0.1) == 0
            &&& t.weight0(p1.0, p1.1) == 0 && t.weight1(p1.0, p1.1) == 4096
            &&& t.weight0(p2.0, p2.1) == 0 && t.weight1(p2.0, p2.1) == 0
        }),
{
    lemma_area_orders(p0, p1, p2);
    lemma_area_orders(p1, p2, p0);
    lemma_no_area(p2, p0);
    lemma_no_area(p1, p2);
    let a = edge_area(p0, p1, p2) as int;
    assert(a * 4096 / a == 4096 && 0int * 4096 / a == 0) by (nonlinear_arith)
        requires
            a > 0,
    ;
}

/// Each vertex of a shaded triangle has its own colour, whichever way round the
/// vertices run. The area is bounded as far as the weights are exact.
pub proof fn law_vertex_colors(
    p0: (i32, i32),
    p1: (i32, i32),
    p2: (i32, i32),
    c0: u32,
    c1: u32,
    c2: u32,
)
    requires
        edge_area(p0, p1, p2) != 0,
        -0x8_0000 < edge_area(p0, p1, p2) < 0x8_0000,
    ensures
        ({
            let t = wound(p0, p1, p2);
            let shading = (Shading::Gouraud { c0, c1, c2 }).arranged(edge_area(p0, p1, p2));
            &&& t.shade(shading, p0.0, p0.1) == word_color15(c0)
            &&& t.shade(shading, p1.0, p1.1) == word_color15(c1)
            &&& t.shade(shading, p2.0, p2.1) == word_color15(c2)
        }),
{
    lemma_area_orders(p0, p1, p2);
    if edge_area(p0, p1, p2) > 0 {
        lemma_vertex_weights(p0, p1, p2);
        lemma_full_colors(c0, c1, c2);
    } else {
        lemma_vertex_weights(p0, p2, p1);
        lemma_full_colors(c0, c2, c1);
        assert(wound(p0, p2, p1) == wound(p0, p1, p2));
    }
}

} // verus!
