use xenith_devices::console::Color as ConsoleColor;
use xenith_devices::fb_font;
use xenith_devices::fb_font::GLYPH_HEIGHT;
use xenith_devices::gfx::{Color, Framebuffer, PixelFormat, Rect};

#[test]
fn color_pack_unpack_roundtrips() {
    let c = Color::new(0x12, 0x34, 0x56);
    assert_eq!(c.to_u32(), 0x0012_3456);
    assert_eq!(c.r(), 0x12);
    assert_eq!(c.g(), 0x34);
    assert_eq!(c.b(), 0x56);
}

#[test]
fn from_rgb24_masks_high_byte() {
    assert_eq!(Color::from_rgb24(0xFF12_3456).to_u32(), 0x0012_3456);
}

#[test]
fn from_console_matches_rgb() {
    let c = Color::from_console(ConsoleColor::Red);
    assert_eq!(c, Color::new(170, 0, 0));
}

#[test]
fn rect_intersect_overlap() {
    let a = Rect::new(0, 0, 10, 10);
    let b = Rect::new(5, 5, 10, 10);
    assert_eq!(a.intersect(b), Rect::new(5, 5, 5, 5));
}

#[test]
fn rect_intersect_disjoint_is_empty() {
    let a = Rect::new(0, 0, 4, 4);
    let b = Rect::new(10, 10, 4, 4);
    assert!(a.intersect(b).is_empty());
}

#[test]
fn rect_contains_respects_exclusive_edges() {
    let r = Rect::new(0, 0, 10, 10);
    assert!(r.contains(0, 0));
    assert!(r.contains(9, 9));
    assert!(!r.contains(10, 0));
    assert!(!r.contains(0, 10));
}

#[test]
fn font_glyph_blank_for_control() {
    assert_eq!(fb_font::glyph(b'\0'), [0u8; GLYPH_HEIGHT]);
    assert_eq!(fb_font::glyph(b' '), [0u8; GLYPH_HEIGHT]);
}

#[test]
fn font_glyph_ascii_has_pixels() {
    let a = fb_font::glyph(b'A');
    assert!(a.iter().any(|row| *row != 0));
}

#[test]
fn font_glyph_high_byte_uses_placeholder() {
    let g = fb_font::glyph(0x80);
    assert_eq!(g[0], 0xFF);
    assert_eq!(g[GLYPH_HEIGHT - 1], 0xFF);
}

#[test]
fn pixel_on_tests_msb_leftmost() {
    let mut g = [0u8; GLYPH_HEIGHT];
    g[0] = 0xFF;
    g[1] = 0x80;
    assert!(fb_font::pixel_on(&g, 0, 0));
    assert!(fb_font::pixel_on(&g, 0, 7));
    assert!(fb_font::pixel_on(&g, 1, 0));
    assert!(!fb_font::pixel_on(&g, 1, 1));
}

const INK: Color = Color(0x00AB_CDEF);

fn surface(width: u16, height: u16, stride: usize) -> Framebuffer {
    Framebuffer::new(vec![0; stride * height as usize], stride * 4, width, height)
}

/// The pixels that have a colour, row by row.
fn drawn(surface: &Framebuffer, c: Color) -> Vec<(usize, usize)> {
    let mut points = Vec::new();
    for y in 0..surface.height() as usize {
        for x in 0..surface.width() as usize {
            if surface.pixel(x, y) == c.to_u32() {
                points.push((x, y));
            }
        }
    }
    points
}

#[test]
fn surface_knows_its_geometry() {
    let surface = surface(5, 3, 8);
    assert_eq!(surface.width(), 5);
    assert_eq!(surface.height(), 3);
    assert_eq!(surface.pitch(), 32);
    assert_eq!(surface.view_rect(), Rect::new(0, 0, 5, 3));
    assert!(surface.in_bounds(4, 2));
    assert!(!surface.in_bounds(5, 0));
    assert!(!surface.in_bounds(0, -1));
}

#[test]
fn pixels_outside_are_dropped() {
    let mut surface = surface(4, 4, 6);
    for (x, y) in [(-1, 0), (4, 0), (5, 1), (0, 4), (i32::MIN, i32::MAX)] {
        surface.put_pixel(x, y, INK);
    }
    assert!(surface.pixels.iter().all(|pixel| *pixel == 0));
    surface.put_pixel(3, 2, INK);
    assert_eq!(surface.pixels[2 * 6 + 3], INK.to_u32());
}

#[test]
fn fills_are_clipped_and_padding_stays() {
    let mut surface = surface(4, 3, 6);
    surface.fill_rect(Rect::new(-5, 1, 100, 50), INK);
    assert_eq!(drawn(&surface, INK).len(), 8);
    assert_eq!(surface.pixels[6 + 4], 0);
    surface.fill_rect(Rect::new(i32::MAX, i32::MAX, i32::MAX, i32::MAX), Color(1));
    surface.fill_rect(Rect::new(1, 1, 0, 5), Color(1));
    assert!(drawn(&surface, Color(1)).is_empty());
    surface.clear(Color(2));
    assert_eq!(drawn(&surface, Color(2)).len(), 12);
    assert_eq!(surface.pixels[4], 0);
}

#[test]
fn outline_has_a_hole() {
    let mut surface = surface(6, 5, 6);
    surface.draw_rect(Rect::new(1, 1, 4, 3), INK);
    assert_eq!(
        drawn(&surface, INK),
        vec![
            (1, 1),
            (2, 1),
            (3, 1),
            (4, 1),
            (1, 2),
            (4, 2),
            (1, 3),
            (2, 3),
            (3, 3),
            (4, 3)
        ]
    );
    let mut thin = self::surface(6, 5, 6);
    thin.draw_rect(Rect::new(0, 0, 3, 1), INK);
    thin.draw_rect(Rect::new(5, 0, 1, 5), INK);
    thin.draw_rect(Rect::new(0, 3, 0, 1), INK);
    assert_eq!(drawn(&thin, INK).len(), 8);
}

#[test]
fn lines_follow_the_nearest_pixel() {
    let line = |x0, y0, x1, y1| {
        let mut surface = surface(8, 8, 8);
        surface.draw_line(x0, y0, x1, y1, INK);
        drawn(&surface, INK)
    };
    assert_eq!(line(2, 3, 2, 3), vec![(2, 3)]);
    assert_eq!(line(0, 0, 3, 3), vec![(0, 0), (1, 1), (2, 2), (3, 3)]);
    assert_eq!(
        line(0, 0, 7, 2),
        vec![
            (0, 0),
            (1, 0),
            (2, 1),
            (3, 1),
            (4, 1),
            (5, 1),
            (6, 2),
            (7, 2)
        ]
    );
    assert_eq!(line(0, 0, 2, 1), vec![(0, 0), (1, 1), (2, 1)]);
    assert_eq!(line(2, 1, 0, 0), vec![(0, 0), (1, 0), (2, 1)]);
    assert_eq!(line(1, 7, 0, 4), vec![(0, 4), (0, 5), (1, 6), (1, 7)]);
    assert_eq!(line(7, 0, 7, 7).len(), 8);
    assert_eq!(line(-4, 3, 20, 3).len(), 8);
    assert!(line(-3, -1, -1, -9).is_empty());
}

#[test]
fn glyphs_tile_with_their_background() {
    let mut surface = surface(8, 16, 8);
    surface.draw_char(0, 0, b'A', Color(1), Color(2));
    for y in 0..16 {
        for x in 0..8 {
            let on = fb_font::pixel_on(&fb_font::glyph(b'A'), y, x);
            assert_eq!(surface.pixel(x, y), if on { 1 } else { 2 });
        }
    }
    assert_eq!(fb_font::glyph(b'A')[7], 0xfe);
    let mut clipped = self::surface(4, 4, 4);
    clipped.draw_char(-6, -14, 0x80, Color(1), Color(2));
    assert_eq!(drawn(&clipped, Color(1)), vec![(1, 0), (0, 1), (1, 1)]);
    assert_eq!(drawn(&clipped, Color(2)), vec![(0, 0)]);
}

#[test]
fn text_wraps_at_line_feeds_only() {
    let mut one = surface(40, 40, 40);
    one.draw_str(1, 2, "ab\nc\rd", Color(1), Color(2));
    let mut two = surface(40, 40, 40);
    two.draw_char(1, 2, b'a', Color(1), Color(2));
    two.draw_char(9, 2, b'b', Color(1), Color(2));
    two.draw_char(1, 18, b'd', Color(1), Color(2));
    assert_eq!(one.pixels, two.pixels);
    let mut three = surface(40, 40, 40);
    three.draw_str(i32::MAX - 3, i32::MAX, "far\naway", Color(1), Color(2));
    assert!(three.pixels.iter().all(|pixel| *pixel == 0));
}

#[test]
fn copies_may_overlap() {
    let numbered = || {
        Framebuffer::new((0..30).collect(), 24, 5, 5)
    };
    let mut down = numbered();
    down.blit(Rect::new(0, 0, 4, 3), 1, 1);
    assert_eq!(down.pixel(1, 1), 0);
    assert_eq!(down.pixel(4, 3), 15);
    assert_eq!(down.pixel(0, 1), 6);
    assert_eq!(down.pixel(1, 4), 25);
    let mut up = numbered();
    up.blit(Rect::new(0, 1, 5, 4), 0, 0);
    assert_eq!(up.pixels[..5], [6, 7, 8, 9, 10]);
    assert_eq!(up.pixels[18..23], [24, 25, 26, 27, 28]);
    assert_eq!(up.pixels[24..29], [24, 25, 26, 27, 28]);
    assert_eq!(up.pixels[5], 5);
    let mut side = numbered();
    side.blit(Rect::new(0, 0, 4, 1), 1, 0);
    assert_eq!(side.pixels[..5], [0, 0, 1, 2, 3]);
    let mut off = numbered();
    off.blit(Rect::new(0, 0, 5, 5), -2, -1);
    assert_eq!(off.pixel(0, 0), 8);
    assert_eq!(off.pixel(2, 3), 28);
    assert_eq!(off.pixel(3, 0), 3);
    let mut left = Framebuffer::new(vec![10, 11, 12, 13], 16, 4, 1);
    left.blit(Rect::new(-1, 0, 2, 1), 2, 0);
    assert_eq!(left.pixels, [10, 11, 12, 10]);
    let mut corner = numbered();
    corner.blit(Rect::new(-1, -2, 3, 4), 0, 0);
    assert_eq!(corner.pixels[..12], numbered().pixels[..12]);
    assert_eq!(corner.pixels[12..17], [12, 0, 1, 15, 16]);
    assert_eq!(corner.pixels[18..23], [18, 6, 7, 21, 22]);
    assert_eq!(corner.pixels[24..], numbered().pixels[24..]);
    let mut far = numbered();
    far.blit(Rect::new(i32::MIN, 0, i32::MAX, 5), i32::MAX, 0);
    far.blit(Rect::new(i32::MAX, 0, i32::MAX, 5), i32::MIN, 0);
    assert_eq!(far.pixels, numbered().pixels);
    let mut none = numbered();
    none.blit(Rect::new(9, 0, 5, 5), 0, 0);
    none.blit(Rect::new(0, 0, 5, 5), 5, 0);
    assert_eq!(none.pixels, numbered().pixels);
}

#[test]
fn formats_place_the_parts() {
    assert_eq!(PixelFormat::xrgb8888().pack_rgb(1, 2, 3), 0x0001_0203);
    let bgr = PixelFormat {
        red: 0,
        green: 8,
        blue: 16,
    };
    assert_eq!(bgr.pack_rgb(1, 2, 3), 0x0003_0201);
}

#[test]
fn shared_part_is_inside_both() {
    let a = Rect::new(-3, -3, 5, 9);
    let b = Rect::new(0, -9, 9, 9);
    let shared = a.intersect(b);
    assert_eq!(shared, Rect::new(0, -3, 2, 3));
    for y in -10..10 {
        for x in -10..10 {
            assert_eq!(shared.contains(x, y), a.contains(x, y) && b.contains(x, y));
        }
    }
    assert_eq!((a.right(), a.bottom()), (2, 6));
}
