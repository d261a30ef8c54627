use adafruit_gfx::adafruit_gfx_h::{bv, AdafruitGFX, Drawable, BLACK, WHITE};
use adafruit_gfx::glcdfont::FONT;

/// Read one logical pixel back through the raw remap, as a transport would.
fn get_pixel(d: &AdafruitGFX, x: i16, y: i16) -> bool {
    if x < 0 || y < 0 || x >= d.width || y >= d.height {
        return false;
    }
    let (rx, ry) = match d.rotation {
        1 => (d.raw_width - y - 1, x),
        2 => (d.raw_width - x - 1, d.raw_height - y - 1),
        3 => (y, d.raw_height - x - 1),
        _ => (x, y),
    };
    let idx = (rx as usize) + (ry as usize / 8) * (d.raw_width as usize);
    d.buffer[idx] & (1u8 << (ry as usize % 8)) != 0
}

fn lit_count(d: &AdafruitGFX) -> usize {
    d.buffer.iter().map(|b| b.count_ones() as usize).sum()
}

#[test]
fn new_display_is_blank() {
    let d = AdafruitGFX::new(128, 64);
    assert_eq!(d.width, 128);
    assert_eq!(d.height, 64);
    assert_eq!(d.buffer.len(), 128 * 64 / 8);
    assert!(d.buffer.iter().all(|&b| b == 0));
    assert_eq!(d.textsize, 1);
    assert_eq!(d.textcolor, WHITE);
    assert_eq!(d.textbgcolor, BLACK);
    assert!(d.wrap);
}

#[test]
fn bv_makes_single_bit_masks() {
    assert_eq!(bv(0), 1);
    assert_eq!(bv(3), 8);
    assert_eq!(bv(7), 0x80);
}

#[test]
fn set_pixel_readback_under_all_rotations() {
    for r in 0u8..4 {
        let mut d = AdafruitGFX::new(64, 32);
        d.set_rotation(r);
        d.draw_pixel(5, 9, WHITE);
        assert!(get_pixel(&d, 5, 9), "rotation {}", r);
        assert_eq!(lit_count(&d), 1, "rotation {}", r);
        d.draw_pixel(5, 9, BLACK);
        assert!(!get_pixel(&d, 5, 9), "rotation {}", r);
        assert_eq!(lit_count(&d), 0, "rotation {}", r);
    }
}

#[test]
fn out_of_range_pixels_are_clipped() {
    let mut d = AdafruitGFX::new(32, 16);
    d.draw_pixel(-1, 5, WHITE);
    d.draw_pixel(5, -1, WHITE);
    d.draw_pixel(32, 5, WHITE);
    d.draw_pixel(5, 16, WHITE);
    assert!(d.buffer.iter().all(|&b| b == 0));
}

#[test]
fn line_is_symmetric_in_its_endpoints() {
    let cases = [
        (1, 2, 10, 7),
        (10, 7, 1, 2),
        (0, 0, 3, 12),
        (5, 5, 5, 5),
        (8, 1, 0, 9),
    ];
    for &(x0, y0, x1, y1) in cases.iter() {
        let mut a = AdafruitGFX::new(32, 16);
        let mut b = AdafruitGFX::new(32, 16);
        a.draw_line(x0, y0, x1, y1, WHITE);
        b.draw_line(x1, y1, x0, y0, WHITE);
        assert_eq!(a.buffer, b.buffer, "case {:?}", (x0, y0, x1, y1));
    }
}

#[test]
fn zero_length_line_is_one_pixel() {
    let mut d = AdafruitGFX::new(32, 16);
    d.draw_line(4, 4, 4, 4, WHITE);
    assert!(get_pixel(&d, 4, 4));
    assert_eq!(lit_count(&d), 1);
}

#[test]
fn fast_lines_span_their_extent() {
    let mut d = AdafruitGFX::new(32, 16);
    d.draw_fast_h_line(2, 3, 5, WHITE);
    for x in 2..7 {
        assert!(get_pixel(&d, x, 3));
    }
    assert_eq!(lit_count(&d), 5);
    let mut v = AdafruitGFX::new(32, 16);
    v.draw_fast_v_line(6, 1, 4, WHITE);
    for y in 1..5 {
        assert!(get_pixel(&v, 6, y));
    }
    assert_eq!(lit_count(&v), 4);
}

#[test]
fn fill_rect_fills_exactly_its_area() {
    let mut d = AdafruitGFX::new(32, 16);
    d.fill_rect(3, 2, 5, 4, WHITE);
    for x in 0..32 {
        for y in 0..16 {
            let inside = (3..8).contains(&x) && (2..6).contains(&y);
            assert_eq!(get_pixel(&d, x, y), inside, "at {:?}", (x, y));
        }
    }
}

#[test]
fn fill_rect_roundtrip_restores_blank_buffer() {
    let mut d = AdafruitGFX::new(32, 16);
    let before = d.buffer.clone();
    d.fill_rect(3, 2, 5, 4, WHITE);
    assert!(lit_count(&d) > 0);
    d.fill_rect(3, 2, 5, 4, BLACK);
    assert_eq!(d.buffer, before);
}

#[test]
fn draw_rect_outlines_only() {
    let mut d = AdafruitGFX::new(32, 16);
    d.draw_rect(1, 1, 6, 5, WHITE);
    assert!(get_pixel(&d, 1, 1));
    assert!(get_pixel(&d, 6, 1));
    assert!(get_pixel(&d, 1, 5));
    assert!(get_pixel(&d, 6, 5));
    assert!(get_pixel(&d, 3, 1));
    assert!(!get_pixel(&d, 3, 3));
}

#[test]
fn fill_screen_sets_every_pixel() {
    let mut d = AdafruitGFX::new(16, 16);
    d.fill_screen(WHITE);
    assert!(d.buffer.iter().all(|&b| b == 0xff));
    d.fill_screen(BLACK);
    assert!(d.buffer.iter().all(|&b| b == 0));
}

#[test]
fn circle_radius_five_hits_axis_points() {
    let mut d = AdafruitGFX::new(64, 48);
    d.draw_circle(20, 20, 5, WHITE);
    assert!(get_pixel(&d, 25, 20));
    assert!(get_pixel(&d, 15, 20));
    assert!(get_pixel(&d, 20, 25));
    assert!(get_pixel(&d, 20, 15));
}

#[test]
fn circle_is_eight_way_symmetric() {
    let mut d = AdafruitGFX::new(64, 48);
    let (cx, cy) = (20i16, 20i16);
    d.draw_circle(cx, cy, 7, WHITE);
    for dx in -8i16..9 {
        for dy in -8i16..9 {
            let p = get_pixel(&d, cx + dx, cy + dy);
            assert_eq!(p, get_pixel(&d, cx + dy, cy + dx), "swap {:?}", (dx, dy));
            assert_eq!(p, get_pixel(&d, cx - dx, cy + dy), "flip x {:?}", (dx, dy));
            assert_eq!(p, get_pixel(&d, cx + dx, cy - dy), "flip y {:?}", (dx, dy));
        }
    }
}

#[test]
fn zero_radius_circle_is_its_center() {
    let mut d = AdafruitGFX::new(32, 16);
    d.draw_circle(10, 10, 0, WHITE);
    assert!(get_pixel(&d, 10, 10));
    assert_eq!(lit_count(&d), 1);
}

#[test]
fn fill_circle_covers_the_disc() {
    let mut d = AdafruitGFX::new(64, 48);
    d.fill_circle(20, 20, 5, WHITE);
    for dx in -5i16..6 {
        for dy in -5i16..6 {
            if dx * dx + dy * dy <= 25 {
                assert!(get_pixel(&d, 20 + dx, 20 + dy), "at {:?}", (dx, dy));
            }
        }
    }
    assert!(!get_pixel(&d, 26, 20));
}

#[test]
fn flat_triangle_is_one_horizontal_line() {
    let mut d = AdafruitGFX::new(32, 16);
    d.fill_triangle(7, 5, 2, 5, 4, 5, WHITE);
    for x in 0..32 {
        assert_eq!(get_pixel(&d, x, 5), (2..8).contains(&x), "at x={}", x);
    }
    assert_eq!(lit_count(&d), 6);
}

#[test]
fn filled_triangle_contains_its_vertices_and_interior() {
    let mut d = AdafruitGFX::new(64, 48);
    d.fill_triangle(5, 5, 25, 10, 10, 25, WHITE);
    assert!(get_pixel(&d, 5, 5));
    assert!(get_pixel(&d, 25, 10));
    assert!(get_pixel(&d, 10, 25));
    assert!(get_pixel(&d, 12, 12));
    assert!(!get_pixel(&d, 40, 40));
}

#[test]
fn triangle_outline_draws_three_edges() {
    let mut d = AdafruitGFX::new(64, 48);
    d.draw_triangle(5, 5, 25, 5, 5, 20, WHITE);
    assert!(get_pixel(&d, 5, 5));
    assert!(get_pixel(&d, 25, 5));
    assert!(get_pixel(&d, 5, 20));
    assert!(get_pixel(&d, 15, 5));
    assert!(get_pixel(&d, 5, 12));
}

#[test]
fn rotation_toggle_restores_geometry_and_pixels() {
    let mut d = AdafruitGFX::new(128, 64);
    d.draw_pixel(3, 1, WHITE);
    let before = d.buffer.clone();
    d.set_rotation(1);
    assert_eq!(d.width, 64);
    assert_eq!(d.height, 128);
    d.set_rotation(0);
    assert_eq!(d.width, 128);
    assert_eq!(d.height, 64);
    assert_eq!(d.buffer, before);
    assert!(get_pixel(&d, 3, 1));
}

#[test]
fn rotation_is_taken_modulo_four() {
    let mut d = AdafruitGFX::new(128, 64);
    d.set_rotation(5);
    assert_eq!(d.get_rotation(), 1);
    assert_eq!(d.width, 64);
    d.set_rotation(255);
    assert_eq!(d.get_rotation(), 3);
}

#[test]
fn getters_report_logical_size() {
    let mut d = AdafruitGFX::new(96, 32);
    assert_eq!(d.get_width(), 96);
    assert_eq!(d.get_height(), 32);
    d.set_rotation(3);
    assert_eq!(d.get_width(), 32);
    assert_eq!(d.get_height(), 96);
}

#[test]
fn draw_char_renders_the_font_columns() {
    let mut d = AdafruitGFX::new(32, 16);
    d.draw_char(0, 0, b'A', WHITE, BLACK, 1);
    for i in 0..5usize {
        let col = FONT[(b'A' as usize - 0x20) * 5 + i];
        for j in 0..8usize {
            let expect = (col >> j) & 1 != 0;
            assert_eq!(get_pixel(&d, i as i16, j as i16), expect, "at {:?}", (i, j));
        }
    }
    for j in 0..8 {
        assert!(!get_pixel(&d, 5, j));
    }
}

#[test]
fn draw_char_scales_by_text_size() {
    let mut d1 = AdafruitGFX::new(16, 16);
    d1.draw_char(0, 0, b'!', WHITE, BLACK, 1);
    let mut d2 = AdafruitGFX::new(32, 32);
    d2.draw_char(0, 0, b'!', WHITE, BLACK, 2);
    for x in 0..16 {
        for y in 0..16 {
            let scaled = get_pixel(&d2, 2 * x, 2 * y)
                && get_pixel(&d2, 2 * x + 1, 2 * y)
                && get_pixel(&d2, 2 * x, 2 * y + 1)
                && get_pixel(&d2, 2 * x + 1, 2 * y + 1);
            assert_eq!(get_pixel(&d1, x, y), scaled, "at {:?}", (x, y));
        }
    }
}

#[test]
fn fully_offscreen_glyph_is_skipped() {
    let mut d = AdafruitGFX::new(32, 16);
    d.draw_char(-100, -100, b'A', WHITE, BLACK, 1);
    assert_eq!(lit_count(&d), 0);
}

#[test]
fn equal_text_colors_leave_background_alone() {
    let mut d = AdafruitGFX::new(32, 16);
    d.fill_screen(WHITE);
    let before = lit_count(&d);
    d.draw_char(0, 0, b' ', WHITE, WHITE, 1);
    assert_eq!(lit_count(&d), before);
}

#[test]
fn newline_after_two_chars_homes_the_cursor() {
    let mut d = AdafruitGFX::new(128, 64);
    let y0 = d.cursor_y;
    d.write_string("AB\n");
    assert_eq!(d.cursor_x, 0);
    assert_eq!(d.cursor_y, y0 + 8);
    d.write_char('C');
    assert_eq!(d.cursor_x, 6);
    let col = FONT[(b'C' as usize - 0x20) * 5];
    for j in 0..8usize {
        let expect = (col >> j) & 1 != 0;
        assert_eq!(get_pixel(&d, 0, (y0 + 8) + j as i16), expect);
    }
}

#[test]
fn carriage_return_only_homes_the_column() {
    let mut d = AdafruitGFX::new(128, 64);
    d.set_text_cursor(30, 9);
    d.write_char('\r');
    assert_eq!(d.cursor_x, 0);
    assert_eq!(d.cursor_y, 9);
}

#[test]
fn text_wraps_at_the_right_edge() {
    let mut d = AdafruitGFX::new(128, 32);
    d.set_text_cursor(120, 0);
    d.write_char('A');
    assert_eq!(d.cursor_x, 0);
    assert_eq!(d.cursor_y, 8);
    let mut n = AdafruitGFX::new(128, 32);
    n.set_text_wrap(false);
    n.set_text_cursor(120, 0);
    n.write_char('A');
    assert_eq!(n.cursor_x, 126);
    assert_eq!(n.cursor_y, 0);
}

#[test]
fn putc_and_getc_behave_like_the_stream() {
    let mut d = AdafruitGFX::new(128, 32);
    assert_eq!(d.getc(), -1);
    assert_eq!(d.putc('X'), 1);
    assert_eq!(d.cursor_x, 6);
}

#[test]
fn text_size_is_clamped_to_one() {
    let mut d = AdafruitGFX::new(128, 32);
    d.set_text_size(0);
    assert_eq!(d.textsize, 1);
    d.set_text_size(-3);
    assert_eq!(d.textsize, 1);
    d.set_text_size(2);
    assert_eq!(d.textsize, 2);
}

#[test]
fn single_argument_color_setter_sets_both() {
    let mut d = AdafruitGFX::new(128, 32);
    d.set_text_color(WHITE);
    assert_eq!(d.textcolor, WHITE);
    assert_eq!(d.textbgcolor, WHITE);
    d.set_text_color_independent(WHITE, BLACK);
    assert_eq!(d.textcolor, WHITE);
    assert_eq!(d.textbgcolor, BLACK);
}

#[test]
fn swap_exchanges_coordinates() {
    let mut d = AdafruitGFX::new(8, 8);
    let mut a = 3i16;
    let mut b = -7i16;
    d.swap(&mut a, &mut b);
    assert_eq!(a, -7);
    assert_eq!(b, 3);
}

#[test]
fn bitmap_blit_plots_only_set_bits() {
    let mut d = AdafruitGFX::new(32, 16);
    let bm: Vec<u8> = vec![0x01, 0x00, 0x00, 0x00, 0x00, 0x00, 0x00, 0x80];
    d.draw_bitmap(2, 3, &bm, 8, 8, WHITE);
    assert!(get_pixel(&d, 2, 3));
    assert!(get_pixel(&d, 2 + 7, 3 + 7));
    assert_eq!(lit_count(&d), 2);
}

#[test]
fn round_rect_corners_stay_inside_outline() {
    let mut d = AdafruitGFX::new(64, 32);
    d.draw_round_rect(2, 2, 20, 12, 3, WHITE);
    assert!(get_pixel(&d, 10, 2));
    assert!(get_pixel(&d, 2, 8));
    assert!(!get_pixel(&d, 2, 2));
    let mut f = AdafruitGFX::new(64, 32);
    f.fill_round_rect(2, 2, 20, 12, 3, WHITE);
    assert!(get_pixel(&f, 10, 8));
    assert!(!get_pixel(&f, 2, 2));
}
