use psoxide::gpu::rasterizer::{DrawArea, Rasterizer};
use psoxide::gpu::vram::Vram;

fn whole() -> DrawArea {
    DrawArea { left: 0, top: 0, right: 1023, bottom: 511 }
}

fn vertex(x: i32, y: i32) -> u32 {
    ((x as u32) & 0x7FF) | (((y as u32) & 0x7FF) << 16)
}

fn painted(v: &Vram) -> usize {
    v.data.iter().filter(|p| **p != 0).count()
}

#[test]
fn a_draw_area_includes_its_edges() {
    let a = DrawArea { left: 2, top: 3, right: 4, bottom: 5 };
    assert!(a.contains(2, 3) && a.contains(4, 5));
    assert!(!a.contains(1, 3) && !a.contains(5, 5) && !a.contains(2, 6));
}

#[test]
fn a_flat_triangle_covers_its_points() {
    let mut v = Vram::new();
    let r = Rasterizer::new(1);
    r.flat_triangle(&mut v, 0xFF, vertex(0, 0), vertex(4, 0), vertex(0, 4), &whole(), (0, 0));
    assert_eq!(painted(&v), 15);
    assert_eq!(v.get_pixel(4, 0), 0x1F);
    assert_eq!(v.get_pixel(0, 4), 0x1F);
    assert_eq!(v.get_pixel(3, 2), 0);
}

#[test]
fn winding_does_not_matter() {
    let mut a = Vram::new();
    let mut b = Vram::new();
    let r = Rasterizer::new(1);
    r.flat_triangle(&mut a, 0xFF, vertex(1, 1), vertex(9, 2), vertex(3, 8), &whole(), (0, 0));
    r.flat_triangle(&mut b, 0xFF, vertex(1, 1), vertex(3, 8), vertex(9, 2), &whole(), (0, 0));
    assert_eq!(a.data, b.data);
    assert!(painted(&a) > 0);
}

#[test]
fn triangles_are_clipped_and_offset() {
    let mut v = Vram::new();
    let r = Rasterizer::new(1);
    let area = DrawArea { left: 10, top: 10, right: 11, bottom: 11 };
    r.flat_triangle(&mut v, 0xFF, vertex(-1, -1), vertex(8, -1), vertex(-1, 8), &area, (10, 10));
    assert_eq!(painted(&v), 4);
    assert_eq!(v.get_pixel(11, 11), 0x1F);
}

#[test]
fn degenerate_and_huge_triangles_are_dropped() {
    let mut v = Vram::new();
    let r = Rasterizer::new(1);
    r.flat_triangle(&mut v, 0xFF, vertex(0, 0), vertex(4, 4), vertex(8, 8), &whole(), (0, 0));
    let wide = DrawArea { left: -1024, top: -1024, right: 1023, bottom: 1023 };
    r.flat_triangle(
        &mut v,
        0xFF,
        vertex(-1000, 0),
        vertex(1000, 0),
        vertex(0, 100),
        &wide,
        (0, 0),
    );
    assert_eq!(painted(&v), 0);
}

#[test]
fn a_flat_quad_is_two_triangles() {
    let mut v = Vram::new();
    let r = Rasterizer::new(1);
    r.flat_quad(
        &mut v,
        0x00FF_0000,
        vertex(0, 0),
        vertex(3, 0),
        vertex(0, 3),
        vertex(3, 3),
        &whole(),
        (0, 0),
    );
    assert_eq!(painted(&v), 16);
    assert_eq!(v.get_pixel(3, 3), 0x7C00);
}

#[test]
fn gouraud_corners_have_their_own_colours() {
    let mut v = Vram::new();
    let r = Rasterizer::new(1);
    r.gouraud_triangle(
        &mut v,
        0x0000_00FF,
        vertex(0, 0),
        0x0000_FF00,
        vertex(8, 0),
        0x00FF_0000,
        vertex(0, 8),
        &whole(),
        (0, 0),
    );
    assert_eq!(v.get_pixel(0, 0), 0x001F);
    assert_eq!(v.get_pixel(8, 0), 0x03E0);
    assert_eq!(v.get_pixel(0, 8), 0x7C00);
    // Half way between the first two corners: 0x7F of each.
    assert_eq!(v.get_pixel(4, 0), 0x01EF);
}

#[test]
fn a_gouraud_quad_covers_both_triangles() {
    let mut v = Vram::new();
    let r = Rasterizer::new(1);
    r.gouraud_quad(
        &mut v,
        0xFF,
        vertex(0, 0),
        0xFF,
        vertex(4, 0),
        0xFF,
        vertex(0, 4),
        0xFF00,
        vertex(4, 4),
        &whole(),
        (0, 0),
    );
    assert_eq!(painted(&v), 25);
    // The second triangle is wound the other way round; its colours stay with
    // their vertices.
    assert_eq!(v.get_pixel(4, 4), 0x03E0);
    assert_eq!(v.get_pixel(0, 4), 0x001F);
    assert_eq!(v.get_pixel(4, 0), 0x001F);
}

#[test]
fn gouraud_colours_follow_their_vertices_either_way_round() {
    let r = Rasterizer::new(1);
    let (a, b, c) = (vertex(0, 0), vertex(8, 0), vertex(0, 8));
    let mut v = Vram::new();
    let mut w = Vram::new();
    r.gouraud_triangle(&mut v, 0xFF, a, 0xFF00, b, 0xFF_0000, c, &whole(), (0, 0));
    r.gouraud_triangle(&mut w, 0xFF, a, 0xFF_0000, c, 0xFF00, b, &whole(), (0, 0));
    assert_eq!(w.get_pixel(0, 0), 0x001F);
    assert_eq!(w.get_pixel(8, 0), 0x03E0);
    assert_eq!(w.get_pixel(0, 8), 0x7C00);
    assert_eq!(v.data, w.data);
}

#[test]
fn a_flat_rectangle_is_clipped() {
    let mut v = Vram::new();
    let r = Rasterizer::new(1);
    let area = DrawArea { left: 0, top: 0, right: 5, bottom: 511 };
    r.flat_rect(&mut v, 0xFF, vertex(4, 1), 8, 2, &area, (0, 0));
    assert_eq!(painted(&v), 4);
    assert_eq!(v.get_pixel(5, 2), 0x1F);
    assert_eq!(v.get_pixel(6, 2), 0);
    r.flat_rect(&mut v, 0xFF, vertex(0, 0), 0, 5, &area, (0, 0));
    r.flat_rect(&mut v, 0xFF, vertex(0, 0), -3, 5, &area, (0, 0));
    assert_eq!(painted(&v), 4);
}

#[test]
fn a_fill_ignores_the_draw_area() {
    let mut v = Vram::new();
    Rasterizer::new(1).fill_rect(&mut v, 0xFF, (1 << 16) | 16, (2 << 16) | 1);
    assert_eq!(painted(&v), 32);
    assert_eq!(v.get_pixel(31, 2), 0x1F);
}

#[test]
fn scaling_draws_the_same_native_pixels() {
    let mut a = Vram::new();
    let mut b = Vram::new();
    for (v, r) in [(&mut a, Rasterizer::new(1)), (&mut b, Rasterizer::new(3))] {
        r.flat_triangle(v, 0xFF, vertex(1, 1), vertex(9, 2), vertex(3, 8), &whole(), (0, 0));
        r.flat_rect(v, 0xFF00, vertex(20, 20), 3, 3, &whole(), (0, 0));
        r.fill_rect(v, 0xFF_0000, 0x40, (2 << 16) | 16);
    }
    assert_eq!(a.data, b.data);
    assert_eq!(Rasterizer::new(0).scale, 1);
}

#[test]
fn texels_are_looked_up() {
    let mut v = Vram::new();
    let r = Rasterizer::new(1);
    // A direct texture on page 1: two texels, one transparent.
    v.set_pixel(64 + 2, 3, 0x1234);
    r.textured_rect(
        &mut v,
        0,
        vertex(300, 100),
        (3 << 8) | 2,
        2,
        1,
        (2 << 7) | 1,
        &whole(),
        (0, 0),
    );
    assert_eq!(v.get_pixel(300, 100), 0x1234);
    assert_eq!(v.get_pixel(301, 100), 0);
    // Four bits per texel: the texels 1, 2, 3, 4 with a table at (32, 480).
    v.set_pixel(0, 0, 0x4321);
    for i in 0..16u16 {
        v.set_pixel(32 + i, 480, 0x100 + i);
    }
    let clut = (480u32 << 22) | (2 << 16);
    r.textured_rect(&mut v, 0, vertex(400, 100), clut, 4, 1, 0, &whole(), (0, 0));
    assert_eq!(v.get_pixel(400, 100), 0x101);
    assert_eq!(v.get_pixel(403, 100), 0x104);
    // Eight bits per texel.
    v.set_pixel(0, 1, 0x0502);
    r.textured_rect(&mut v, 0, vertex(500, 100), clut | (1 << 8), 2, 1, 1 << 7, &whole(), (0, 0));
    assert_eq!(v.get_pixel(500, 100), 0x102);
    assert_eq!(v.get_pixel(501, 100), 0x105);
}

#[test]
fn every_order_of_the_vertices_gives_the_same_triangle() {
    let p = [vertex(1, 1), vertex(9, 2), vertex(3, 8)];
    let r = Rasterizer::new(1);
    let mut first = Vram::new();
    r.flat_triangle(&mut first, 0xFF, p[0], p[1], p[2], &whole(), (0, 0));
    assert!(painted(&first) > 0);
    for o in [[1, 2, 0], [2, 0, 1], [0, 2, 1], [2, 1, 0], [1, 0, 2]] {
        let mut v = Vram::new();
        r.flat_triangle(&mut v, 0xFF, p[o[0]], p[o[1]], p[o[2]], &whole(), (0, 0));
        assert_eq!(v.data, first.data);
    }
}

#[test]
fn equal_colours_make_a_shaded_triangle_flat() {
    let (a, b, c) = (vertex(1, 1), vertex(90, 20), vertex(30, 80));
    let r = Rasterizer::new(1);
    let mut flat = Vram::new();
    let mut shaded = Vram::new();
    r.flat_triangle(&mut flat, 0x28_40F8, a, b, c, &whole(), (3, 4));
    r.gouraud_triangle(
        &mut shaded,
        0x3028_40F8,
        a,
        0x28_40F8,
        b,
        0xFF28_40F8,
        c,
        &whole(),
        (3, 4),
    );
    assert!(painted(&flat) > 0);
    assert_eq!(shaded.data, flat.data);
}

#[test]
fn a_scaled_fill_sets_the_native_rectangle_and_wraps() {
    for scale in [1, 3] {
        let mut v = Vram::new();
        // Columns 1008 to 1039 and rows 510 to 512, the latter parts wrapped.
        let r = Rasterizer::new(scale);
        r.fill_rect(&mut v, 0xFF, (510 << 16) | 1008, (3 << 16) | 17);
        assert_eq!(painted(&v), 32 * 3);
        assert_eq!(v.get_pixel(1008, 510), 0x1F);
        assert_eq!(v.get_pixel(15, 0), 0x1F);
        assert_eq!(v.get_pixel(16, 0), 0);
        assert_eq!(v.get_pixel(1007, 510), 0);
        assert_eq!(v.get_pixel(1008, 1), 0);
    }
}
