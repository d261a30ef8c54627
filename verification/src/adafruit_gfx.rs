//! The raster engine: every drawing operation on an `AdafruitGFX` surface,
//! each one reduced to the single clipped pixel-write primitive.

use vstd::prelude::*;
use vstd::pervasive::VecAdditionalExecFns;
use crate::adafruit_gfx_h::{bv, AdafruitGFX, Drawable, BLACK, WHITE};
use crate::raster::{
    buf_len, byte_index, geom_wf, log_in, put_pixel, raw_in, remap_x, remap_y, Geom,
};
use crate::raster::{
    lemma_byte_index_in, lemma_paint_concat, lemma_paint_items_concat, lemma_paint_pop,
    lemma_paint_with_on, lemma_remap_raw_in, paint, paint_items, with_on,
};
use crate::glcdfont::{font_bit, font_col, font_col_exec};
use crate::shapes::{
    bitmap_bit, bitmap_pts, bitmap_pts_from, bitmap_row_pts, bres_pts, char_code, char_paint,
    circle_arc_pts, circle_helper_pts, circle_pts, corner_octant_pts, corner_span_pts,
    fill_arc_pts, fill_circle_helper_pts, fill_circle_pts, fill_rect_pts, fill_round_rect_pts,
    fill_triangle_pts, glyph_cell_items, glyph_col_items, glyph_items, glyph_items_from,
    glyph_skipped, helper_arc_pts, hline_pts, lemma_bitmap_index, lemma_unit_rect, line_pts,
    octant_pts, rect_pts, round_rect_pts, tdiv, tri_scan_pts, triangle_pts, vline_pts, wc_fits,
    wc_next, wc_paint, ws_fits, ws_next, ws_paint, TextState,
};

verus! {

/// Bound on the center, radius and stretch of the circle-helper loops;
/// enough for the sums a rounded rectangle forms from 16-bit inputs.
pub const COORD_SMALL: i64 = 0x40000;

/// Bound on the coordinates of the corner-span helper, which scales a
/// coordinate before calling a line helper; generous enough that every
/// composite operation on 16-bit inputs stays inside it.
pub const COORD_EIGHTH: i64 = 0x800_0000_0000;

/// Bound on the coordinates of helpers that add two bounded coordinates
/// before calling a line helper.
pub const COORD_QUARTER: i64 = 2 * COORD_EIGHTH;

/// Bound on the coordinates of helpers that call the line primitive with
/// one coordinate sum.
pub const COORD_HALF: i64 = 2 * COORD_QUARTER + 2;

/// Bound on the coordinates the wide line primitive accepts.
pub const COORD_LIMIT: i64 = 2 * COORD_HALF + 2;

/// Signed division truncating toward zero, on a positive divisor, as the
/// scanline fill's slope accumulators need it.
fn tdiv_i64(a: i64, b: i64) -> (q: i64)
    requires
        b >= 1,
        -0x4000_0000_0000_0000 <= a <= 0x4000_0000_0000_0000,
    ensures
        q == tdiv(a as int, b as int),
        a >= 0 ==> 0 <= q <= a,
        a < 0 ==> a <= q <= 0,
{
    if a >= 0 {
        proof {
            vstd::arithmetic::div_mod::lemma_div_basics_4(a as int, b as int);
            vstd::arithmetic::div_mod::lemma_div_basics_5(a as int, b as int);
        }
        ((a as u64) / (b as u64)) as i64
    } else {
        let n = -a;
        proof {
            vstd::arithmetic::div_mod::lemma_div_basics_4(n as int, b as int);
            vstd::arithmetic::div_mod::lemma_div_basics_5(n as int, b as int);
        }
        -(((n as u64) / (b as u64)) as i64)
    }
}

impl AdafruitGFX {
    /// A fresh surface: fixed raw dimensions, rotation 0, a zeroed buffer of
    /// exactly one bit per pixel, and default text state.
    pub fn new(w: i16, h: i16) -> (r: Self)
        requires
            0 <= w,
            0 <= h,
            h % 8 == 0,
        ensures
            r.wf(),
            r.raw_width == w,
            r.raw_height == h,
            r.width == w,
            r.height == h,
            r.rotation == 0,
            r.cursor_x == 0,
            r.cursor_y == 0,
            r.textcolor == WHITE,
            r.textbgcolor == BLACK,
            r.textsize == 1,
            r.wrap == true,
            r.buffer@.len() == w as int * h as int / 8,
            forall|k: int| 0 <= k < r.buffer@.len() ==> r.buffer@[k] == 0,
    {
        proof {
            vstd::arithmetic::mul::lemma_mul_upper_bound(w as int, 0x7fff, h as int, 0x7fff);
        }
        let len: usize = (w as usize) * (h as usize) / 8;
        let buffer: Vec<u8> = vec![0u8; len];
        Self {
            raw_width: w,
            raw_height: h,
            width: w,
            height: h,
            cursor_x: 0,
            cursor_y: 0,
            textcolor: WHITE,
            textbgcolor: BLACK,
            textsize: 1,
            rotation: 0,
            wrap: true,
            buffer,
        }
    }

    /// The clipped pixel-write primitive on wide coordinates: remaps the
    /// logical point to raw space and writes one bit, or does nothing when
    /// the point is out of logical range.
    fn plot(&mut self, x: i64, y: i64, color: u8)
        requires
            old(self).wf(),
        ensures
            final(self).wf(),
            final(self).same_config(old(self)),
            final(self).buffer@ == put_pixel(
                old(self).geom(),
                old(self).buffer@,
                x as int,
                y as int,
                color == WHITE,
            ),
    {
        let ghost g = self.geom();
        if x < 0 || y < 0 || x >= self.width as i64 || y >= self.height as i64 {
            return ;
        }
        let rw = self.raw_width as i64;
        let rh = self.raw_height as i64;
        let rx: i64;
        let ry: i64;
        match self.rotation {
            1 => {
                rx = rw - y - 1;
                ry = x;
            },
            2 => {
                rx = rw - x - 1;
                ry = rh - y - 1;
            },
            3 => {
                rx = y;
                ry = rh - x - 1;
            },
            _ => {
                rx = x;
                ry = y;
            },
        }
        proof {
            lemma_remap_raw_in(g, x as int, y as int);
            assert(rx as int == remap_x(g, x as int, y as int));
            assert(ry as int == remap_y(g, x as int, y as int));
            lemma_byte_index_in(g, rx as int, ry as int);
        }
        let rxu = rx as usize;
        let ryu = ry as usize;
        let rwu = rw as usize;
        proof {
            vstd::arithmetic::div_mod::lemma_div_is_ordered(ryu as int, 0x7fff, 8);
            vstd::arithmetic::mul::lemma_mul_upper_bound(ryu as int / 8, 0xfff, rwu as int, 0x7fff);
        }
        let bi: usize = rxu + (ryu / 8) * rwu;
        let mask = bv((ryu % 8) as u8);
        let b = self.buffer[bi];
        if color == WHITE {
            self.buffer.set(bi, b | mask);
        } else {
            self.buffer.set(bi, b & !mask);
        }
    }

    /// Write two pixels, as one point-pair sequence.
    fn plot2(&mut self, xa: i64, ya: i64, xb: i64, yb: i64, color: u8)
        requires
            old(self).wf(),
        ensures
            final(self).wf(),
            final(self).same_config(old(self)),
            final(self).buffer@ == paint(
                old(self).geom(),
                old(self).buffer@,
                seq![(xa as int, ya as int), (xb as int, yb as int)],
                color == WHITE,
            ),
    {
        let ghost g = old(self).geom();
        let ghost buf0 = old(self).buffer@;
        let ghost con = color == WHITE;
        self.plot(xa, ya, color);
        self.plot(xb, yb, color);
        proof {
            let p = (xa as int, ya as int);
            let q = (xb as int, yb as int);
            let buf1 = put_pixel(g, buf0, p.0, p.1, con);
            assert(seq![p, q].drop_first() =~= seq![q]);
            assert(seq![q].drop_first() =~= Seq::<(int, int)>::empty());
            assert(paint(g, buf0, seq![p, q], con) == paint(g, buf1, seq![q], con));
            assert(paint(g, buf1, seq![q], con) == paint(
                g,
                put_pixel(g, buf1, q.0, q.1, con),
                Seq::<(int, int)>::empty(),
                con,
            ));
            assert(paint(g, put_pixel(g, buf1, q.0, q.1, con), Seq::<(int, int)>::empty(), con)
                == put_pixel(g, buf1, q.0, q.1, con));
        }
    }

    /// Plot the two reflected arc points of each corner selected by the
    /// mask.
    fn corner_plot(&mut self, cx: i64, cy: i64, x: i64, y: i64, cornername: u8, color: u8)
        requires
            old(self).wf(),
            -COORD_QUARTER <= cx <= COORD_QUARTER,
            -COORD_QUARTER <= cy <= COORD_QUARTER,
            -COORD_QUARTER <= x <= COORD_QUARTER,
            -COORD_QUARTER <= y <= COORD_QUARTER,
        ensures
            final(self).wf(),
            final(self).same_config(old(self)),
            final(self).buffer@ == paint(
                old(self).geom(),
                old(self).buffer@,
                corner_octant_pts(cx as int, cy as int, x as int, y as int, cornername),
                color == WHITE,
            ),
    {
        let ghost g = old(self).geom();
        let ghost buf0 = old(self).buffer@;
        let ghost con = color == WHITE;
        let ghost s4 = if cornername & 0x4 != 0 {
            seq![
                (cx as int + x as int, cy as int + y as int),
                (cx as int + y as int, cy as int + x as int),
            ]
        } else {
            Seq::<(int, int)>::empty()
        };
        let ghost s2 = if cornername & 0x2 != 0 {
            seq![
                (cx as int + x as int, cy as int - y as int),
                (cx as int + y as int, cy as int - x as int),
            ]
        } else {
            Seq::<(int, int)>::empty()
        };
        let ghost s8 = if cornername & 0x8 != 0 {
            seq![
                (cx as int - y as int, cy as int + x as int),
                (cx as int - x as int, cy as int + y as int),
            ]
        } else {
            Seq::<(int, int)>::empty()
        };
        let ghost s1 = if cornername & 0x1 != 0 {
            seq![
                (cx as int - y as int, cy as int - x as int),
                (cx as int - x as int, cy as int - y as int),
            ]
        } else {
            Seq::<(int, int)>::empty()
        };
        if cornername & 0x4 != 0 {
            self.plot2(cx + x, cy + y, cx + y, cy + x, color);
        }
        proof {
            assert(self.buffer@ == paint(g, buf0, s4, con));
        }
        let ghost buf4 = self.buffer@;
        if cornername & 0x2 != 0 {
            self.plot2(cx + x, cy - y, cx + y, cy - x, color);
        }
        proof {
            assert(self.buffer@ == paint(g, buf4, s2, con));
        }
        let ghost buf2 = self.buffer@;
        if cornername & 0x8 != 0 {
            self.plot2(cx - y, cy + x, cx - x, cy + y, color);
        }
        proof {
            assert(self.buffer@ == paint(g, buf2, s8, con));
        }
        let ghost buf8 = self.buffer@;
        if cornername & 0x1 != 0 {
            self.plot2(cx - y, cy - x, cx - x, cy - y, color);
        }
        proof {
            assert(self.buffer@ == paint(g, buf8, s1, con));
            lemma_paint_concat(g, buf0, s4, s2, con);
            lemma_paint_concat(g, buf0, s4 + s2, s8, con);
            lemma_paint_concat(g, buf0, s4 + s2 + s8, s1, con);
            assert(corner_octant_pts(cx as int, cy as int, x as int, y as int, cornername)
                == s4 + s2 + s8 + s1);
        }
    }

    /// Draw the two vertical spans of each corner selected by the mask.
    fn corner_span(&mut self, cx: i64, cy: i64, x: i64, y: i64, cornername: u8, delta: i64, color: u8)
        requires
            old(self).wf(),
            -COORD_EIGHTH <= cx <= COORD_EIGHTH,
            -COORD_EIGHTH <= cy <= COORD_EIGHTH,
            -COORD_EIGHTH <= x <= COORD_EIGHTH,
            -COORD_EIGHTH <= y <= COORD_EIGHTH,
            -COORD_EIGHTH <= delta <= COORD_EIGHTH,
        ensures
            final(self).wf(),
            final(self).same_config(old(self)),
            final(self).buffer@ == paint(
                old(self).geom(),
                old(self).buffer@,
                corner_span_pts(cx as int, cy as int, x as int, y as int, cornername, delta as int),
                color == WHITE,
            ),
    {
        let ghost g = old(self).geom();
        let ghost buf0 = old(self).buffer@;
        let ghost con = color == WHITE;
        let ghost sa = if cornername & 0x1 != 0 {
            vline_pts(cx as int + x as int, cy as int - y as int, 2 * y as int + 1 + delta as int)
                + vline_pts(
                cx as int + y as int,
                cy as int - x as int,
                2 * x as int + 1 + delta as int,
            )
        } else {
            Seq::<(int, int)>::empty()
        };
        let ghost sb = if cornername & 0x2 != 0 {
            vline_pts(cx as int - x as int, cy as int - y as int, 2 * y as int + 1 + delta as int)
                + vline_pts(
                cx as int - y as int,
                cy as int - x as int,
                2 * x as int + 1 + delta as int,
            )
        } else {
            Seq::<(int, int)>::empty()
        };
        if cornername & 0x1 != 0 {
            let ghost bufq = self.buffer@;
            self.vline_i64(cx + x, cy - y, 2 * y + 1 + delta, color);
            self.vline_i64(cx + y, cy - x, 2 * x + 1 + delta, color);
            proof {
                lemma_paint_concat(
                    g,
                    bufq,
                    vline_pts(
                        cx as int + x as int,
                        cy as int - y as int,
                        2 * y as int + 1 + delta as int,
                    ),
                    vline_pts(
                        cx as int + y as int,
                        cy as int - x as int,
                        2 * x as int + 1 + delta as int,
                    ),
                    con,
                );
            }
        }
        proof {
            assert(self.buffer@ == paint(g, buf0, sa, con));
        }
        let ghost bufa = self.buffer@;
        if cornername & 0x2 != 0 {
            let ghost bufq = self.buffer@;
            self.vline_i64(cx - x, cy - y, 2 * y + 1 + delta, color);
            self.vline_i64(cx - y, cy - x, 2 * x + 1 + delta, color);
            proof {
                lemma_paint_concat(
                    g,
                    bufq,
                    vline_pts(
                        cx as int - x as int,
                        cy as int - y as int,
                        2 * y as int + 1 + delta as int,
                    ),
                    vline_pts(
                        cx as int - y as int,
                        cy as int - x as int,
                        2 * x as int + 1 + delta as int,
                    ),
                    con,
                );
            }
        }
        proof {
            assert(self.buffer@ == paint(g, bufa, sb, con));
            lemma_paint_concat(g, buf0, sa, sb, con);
            assert(corner_span_pts(
                cx as int,
                cy as int,
                x as int,
                y as int,
                cornername,
                delta as int,
            ) == sa + sb);
        }
    }

    /// Bresenham's line on wide coordinates.
    #[verifier::loop_isolation(false)]
    fn line_i64(&mut self, x0: i64, y0: i64, x1: i64, y1: i64, color: u8)
        requires
            old(self).wf(),
            -COORD_LIMIT <= x0 <= COORD_LIMIT,
            -COORD_LIMIT <= y0 <= COORD_LIMIT,
            -COORD_LIMIT <= x1 <= COORD_LIMIT,
            -COORD_LIMIT <= y1 <= COORD_LIMIT,
        ensures
            final(self).wf(),
            final(self).same_config(old(self)),
            final(self).buffer@ == paint(
                old(self).geom(),
                old(self).buffer@,
                line_pts(x0 as int, y0 as int, x1 as int, y1 as int),
                color == WHITE,
            ),
    {
        let ghost g = old(self).geom();
        let ghost s0 = *old(self);
        let dxa = if x1 >= x0 {
            x1 - x0
        } else {
            x0 - x1
        };
        let dya = if y1 >= y0 {
            y1 - y0
        } else {
            y0 - y1
        };
        let steep = dya > dxa;
        let a0: i64;
        let b0: i64;
        let a1: i64;
        let b1: i64;
        if steep {
            a0 = y0;
            b0 = x0;
            a1 = y1;
            b1 = x1;
        } else {
            a0 = x0;
            b0 = y0;
            a1 = x1;
            b1 = y1;
        }
        let aa0: i64;
        let bb0: i64;
        let aa1: i64;
        let bb1: i64;
        if a0 > a1 {
            aa0 = a1;
            bb0 = b1;
            aa1 = a0;
            bb1 = b0;
        } else {
            aa0 = a0;
            bb0 = b0;
            aa1 = a1;
            bb1 = b1;
        }
        let dx = aa1 - aa0;
        let dy = if bb1 >= bb0 {
            bb1 - bb0
        } else {
            bb0 - bb1
        };
        let bstep: i64 = if bb0 < bb1 {
            1
        } else {
            -1
        };
        let mut err: i64 = dx / 2;
        let mut b: i64 = bb0;
        let mut a: i64 = aa0;
        let ghost con = color == WHITE;
        let ghost target = paint(
            g,
            s0.buffer@,
            line_pts(x0 as int, y0 as int, x1 as int, y1 as int),
            con,
        );
        proof {
            assert(line_pts(x0 as int, y0 as int, x1 as int, y1 as int) == bres_pts(
                aa0 as int,
                aa1 as int,
                bb0 as int,
                (aa1 - aa0) as int / 2,
                dx as int,
                dy as int,
                bstep as int,
                steep,
            ));
        }
        while a <= aa1
            invariant
                self.wf(),
                self.same_config(&s0),
                aa0 <= a <= aa1 + 1,
                bb0 - (a - aa0) <= b <= bb0 + (a - aa0),
                0 <= err <= dx,
                paint(
                    g,
                    self.buffer@,
                    bres_pts(
                        a as int,
                        aa1 as int,
                        b as int,
                        err as int,
                        dx as int,
                        dy as int,
                        bstep as int,
                        steep,
                    ),
                    con,
                ) == target,
            decreases aa1 + 1 - a,
        {
            let ghost bufp = self.buffer@;
            let ghost rest = bres_pts(
                a as int,
                aa1 as int,
                b as int,
                err as int,
                dx as int,
                dy as int,
                bstep as int,
                steep,
            );
            if steep {
                self.plot(b, a, color);
            } else {
                self.plot(a, b, color);
            }
            proof {
                let p = if steep {
                    (b as int, a as int)
                } else {
                    (a as int, b as int)
                };
                let e2 = err as int - dy as int;
                let b2 = if e2 < 0 {
                    b as int + bstep as int
                } else {
                    b as int
                };
                let e3 = if e2 < 0 {
                    e2 + dx as int
                } else {
                    e2
                };
                let tail = bres_pts(
                    a as int + 1,
                    aa1 as int,
                    b2,
                    e3,
                    dx as int,
                    dy as int,
                    bstep as int,
                    steep,
                );
                assert(rest == seq![p] + tail);
                assert(rest[0] == p);
                assert((seq![p] + tail).drop_first() =~= tail);
                assert(self.buffer@ == put_pixel(g, bufp, p.0, p.1, con));
                assert(paint(g, bufp, rest, con) == paint(g, self.buffer@, tail, con));
            }
            err = err - dy;
            if err < 0 {
                b = b + bstep;
                err = err + dx;
            }
            a = a + 1;
        }
        proof {
            assert(bres_pts(
                a as int,
                aa1 as int,
                b as int,
                err as int,
                dx as int,
                dy as int,
                bstep as int,
                steep,
            ) =~= Seq::<(int, int)>::empty());
        }
    }

    /// A fast vertical line on wide coordinates.
    fn vline_i64(&mut self, x: i64, y: i64, h: i64, color: u8)
        requires
            old(self).wf(),
            -COORD_HALF <= x <= COORD_HALF,
            -COORD_HALF <= y <= COORD_HALF,
            -COORD_HALF <= h <= COORD_HALF,
        ensures
            final(self).wf(),
            final(self).same_config(old(self)),
            final(self).buffer@ == paint(
                old(self).geom(),
                old(self).buffer@,
                vline_pts(x as int, y as int, h as int),
                color == WHITE,
            ),
    {
        self.line_i64(x, y, x, y + h - 1, color);
    }

    /// A fast horizontal line on wide coordinates.
    fn hline_i64(&mut self, x: i64, y: i64, w: i64, color: u8)
        requires
            old(self).wf(),
            -COORD_HALF <= x <= COORD_HALF,
            -COORD_HALF <= y <= COORD_HALF,
            -COORD_HALF <= w <= COORD_HALF,
        ensures
            final(self).wf(),
            final(self).same_config(old(self)),
            final(self).buffer@ == paint(
                old(self).geom(),
                old(self).buffer@,
                hline_pts(x as int, y as int, w as int),
                color == WHITE,
            ),
    {
        self.line_i64(x, y, x + w - 1, y, color);
    }

    /// A filled rectangle on wide coordinates: one vertical line per column.
    #[verifier::loop_isolation(false)]
    fn fill_rect_i64(&mut self, x: i64, y: i64, w: i64, h: i64, color: u8)
        requires
            old(self).wf(),
            -COORD_QUARTER <= x <= COORD_QUARTER,
            -COORD_QUARTER <= y <= COORD_QUARTER,
            -COORD_QUARTER <= w <= COORD_QUARTER,
            -COORD_QUARTER <= h <= COORD_QUARTER,
        ensures
            final(self).wf(),
            final(self).same_config(old(self)),
            final(self).buffer@ == paint(
                old(self).geom(),
                old(self).buffer@,
                fill_rect_pts(x as int, y as int, w as int, h as int),
                color == WHITE,
            ),
    {
        let ghost g = old(self).geom();
        let ghost s0 = *old(self);
        let ghost con = color == WHITE;
        let ghost target = paint(
            g,
            s0.buffer@,
            fill_rect_pts(x as int, y as int, w as int, h as int),
            con,
        );
        let xe = x + w;
        let mut i = x;
        while i < xe
            invariant
                self.wf(),
                self.same_config(&s0),
                x <= i,
                i <= xe || i == x,
                paint(
                    g,
                    self.buffer@,
                    fill_rect_pts(i as int, y as int, xe as int - i as int, h as int),
                    con,
                ) == target,
            decreases xe - i,
        {
            let ghost bufp = self.buffer@;
            self.vline_i64(i, y, h, color);
            proof {
                let rest = fill_rect_pts(i as int, y as int, xe as int - i as int, h as int);
                let vl = vline_pts(i as int, y as int, h as int);
                let tail = fill_rect_pts(i as int + 1, y as int, xe as int - i as int - 1, h as int);
                assert(rest == vl + tail);
                lemma_paint_concat(g, bufp, vl, tail, con);
            }
            i = i + 1;
        }
        proof {
            assert(fill_rect_pts(i as int, y as int, xe as int - i as int, h as int)
                =~= Seq::<(int, int)>::empty());
        }
    }
    /// The quadrant-outline helper on wide coordinates.
    #[verifier::loop_isolation(false)]
    fn circle_helper_i64(&mut self, cxw: i64, cyw: i64, rw: i64, cornername: u8, color: u8)
        requires
            old(self).wf(),
            -COORD_SMALL <= cxw <= COORD_SMALL,
            -COORD_SMALL <= cyw <= COORD_SMALL,
            -COORD_SMALL <= rw <= COORD_SMALL,
        ensures
            final(self).wf(),
            final(self).same_config(old(self)),
            final(self).buffer@ == paint(
                old(self).geom(),
                old(self).buffer@,
                circle_helper_pts(cxw as int, cyw as int, rw as int, cornername),
                color == WHITE,
            ),
    {
        let ghost g = old(self).geom();
        let ghost s0 = *old(self);
        let ghost con = color == WHITE;
        let cx = cxw;
        let cy = cyw;
        let rr = rw;
        let mut f: i64 = 1 - rr;
        let mut ddfx: i64 = 1;
        let mut ddfy: i64 = -(2 * rr);
        let mut x: i64 = 0;
        let mut y: i64 = rr;
        let ghost target = paint(
            g,
            s0.buffer@,
            circle_helper_pts(cx as int, cy as int, rr as int, cornername),
            con,
        );
        while x < y
            invariant
                self.wf(),
                self.same_config(&s0),
                ddfx == 2 * x + 1,
                ddfy == -2 * y,
                rr >= 1 ==> 0 <= x <= y + 1 && y <= rr,
                rr < 1 ==> x == 0 && y == rr,
                -((x + 1) * 0x200000 + 0x100000) <= f <= (x + 1) * 0x200000 + 0x100000,
                paint(
                    g,
                    self.buffer@,
                    helper_arc_pts(
                        cx as int,
                        cy as int,
                        x as int,
                        y as int,
                        f as int,
                        ddfx as int,
                        ddfy as int,
                        cornername,
                    ),
                    con,
                ) == target,
            decreases y + 1 - x,
        {
            let ghost bufp = self.buffer@;
            let ghost rest = helper_arc_pts(
                cx as int,
                cy as int,
                x as int,
                y as int,
                f as int,
                ddfx as int,
                ddfy as int,
                cornername,
            );
            if f >= 0 {
                y = y - 1;
                ddfy = ddfy + 2;
                f = f + ddfy;
            }
            x = x + 1;
            ddfx = ddfx + 2;
            f = f + ddfx;
            let ghost tail = helper_arc_pts(
                cx as int,
                cy as int,
                x as int,
                y as int,
                f as int,
                ddfx as int,
                ddfy as int,
                cornername,
            );
            let ghost head = corner_octant_pts(cx as int, cy as int, x as int, y as int, cornername);
            proof {
                assert(rest == head + tail);
            }
            self.corner_plot(cx, cy, x, y, cornername, color);
            proof {
                lemma_paint_concat(g, bufp, head, tail, con);
            }
        }
        proof {
            assert(helper_arc_pts(
                cx as int,
                cy as int,
                x as int,
                y as int,
                f as int,
                ddfx as int,
                ddfy as int,
                cornername,
            ) =~= Seq::<(int, int)>::empty());
        }
    }


    /// The quadrant-fill helper on wide coordinates.
    #[verifier::loop_isolation(false)]
    fn fill_circle_helper_i64(&mut self, cxw: i64, cyw: i64, rw: i64, cornername: u8, deltaw: i64, color: u8)
        requires
            old(self).wf(),
            -COORD_SMALL <= cxw <= COORD_SMALL,
            -COORD_SMALL <= cyw <= COORD_SMALL,
            -COORD_SMALL <= rw <= COORD_SMALL,
            -COORD_SMALL <= deltaw <= COORD_SMALL,
        ensures
            final(self).wf(),
            final(self).same_config(old(self)),
            final(self).buffer@ == paint(
                old(self).geom(),
                old(self).buffer@,
                fill_circle_helper_pts(cxw as int, cyw as int, rw as int, cornername, deltaw as int),
                color == WHITE,
            ),
    {
        let ghost g = old(self).geom();
        let ghost s0 = *old(self);
        let ghost con = color == WHITE;
        let cx = cxw;
        let cy = cyw;
        let rr = rw;
        let dd = deltaw;
        let mut f: i64 = 1 - rr;
        let mut ddfx: i64 = 1;
        let mut ddfy: i64 = -(2 * rr);
        let mut x: i64 = 0;
        let mut y: i64 = rr;
        let ghost target = paint(
            g,
            s0.buffer@,
            fill_circle_helper_pts(cx as int, cy as int, rr as int, cornername, dd as int),
            con,
        );
        while x < y
            invariant
                self.wf(),
                self.same_config(&s0),
                ddfx == 2 * x + 1,
                ddfy == -2 * y,
                rr >= 1 ==> 0 <= x <= y + 1 && y <= rr,
                rr < 1 ==> x == 0 && y == rr,
                -((x + 1) * 0x200000 + 0x100000) <= f <= (x + 1) * 0x200000 + 0x100000,
                paint(
                    g,
                    self.buffer@,
                    fill_arc_pts(
                        cx as int,
                        cy as int,
                        x as int,
                        y as int,
                        f as int,
                        ddfx as int,
                        ddfy as int,
                        cornername,
                        dd as int,
                    ),
                    con,
                ) == target,
            decreases y + 1 - x,
        {
            let ghost bufp = self.buffer@;
            let ghost rest = fill_arc_pts(
                cx as int,
                cy as int,
                x as int,
                y as int,
                f as int,
                ddfx as int,
                ddfy as int,
                cornername,
                dd as int,
            );
            if f >= 0 {
                y = y - 1;
                ddfy = ddfy + 2;
                f = f + ddfy;
            }
            x = x + 1;
            ddfx = ddfx + 2;
            f = f + ddfx;
            let ghost tail = fill_arc_pts(
                cx as int,
                cy as int,
                x as int,
                y as int,
                f as int,
                ddfx as int,
                ddfy as int,
                cornername,
                dd as int,
            );
            let ghost head = corner_span_pts(
                cx as int,
                cy as int,
                x as int,
                y as int,
                cornername,
                dd as int,
            );
            proof {
                assert(rest == head + tail);
            }
            self.corner_span(cx, cy, x, y, cornername, dd, color);
            proof {
                lemma_paint_concat(g, bufp, head, tail, con);
            }
        }
        proof {
            assert(fill_arc_pts(
                cx as int,
                cy as int,
                x as int,
                y as int,
                f as int,
                ddfx as int,
                ddfy as int,
                cornername,
                dd as int,
            ) =~= Seq::<(int, int)>::empty());
        }
    }

    /// Draw one cell of a glyph grid: a foreground block for a set font
    /// bit, a background block for a clear one when the background color
    /// differs, nothing otherwise.
    fn draw_glyph_cell(&mut self, x: i64, y: i64, code: u8, size: i64, i: i64, j: i64, color: u8, bg: u8)
        requires
            old(self).wf(),
            -0x8000 <= x <= 0x8000,
            -0x8000 <= y <= 0x8000,
            -0x8000 <= size <= 0x8000,
            0 <= i <= 5,
            0 <= j <= 7,
        ensures
            final(self).wf(),
            final(self).same_config(old(self)),
            final(self).buffer@ == paint_items(
                old(self).geom(),
                old(self).buffer@,
                glyph_cell_items(
                    x as int,
                    y as int,
                    code as int,
                    size as int,
                    i as int,
                    j as int,
                    color == WHITE,
                    bg == WHITE,
                    bg != color,
                ),
            ),
    {
        let ghost g = old(self).geom();
        let ghost buf0 = old(self).buffer@;
        let ghost con = color == WHITE;
        let ghost bon = bg == WHITE;
        let ghost items = glyph_cell_items(
            x as int,
            y as int,
            code as int,
            size as int,
            i as int,
            j as int,
            con,
            bon,
            bg != color,
        );
        let line: u8 = if i == 5 {
            0
        } else {
            font_col_exec(code, i as usize)
        };
        let bit_set = line & bv(j as u8) != 0;
        proof {
            if i == 5 {
                let k = j as u8;
                assert(0u8 & (1u8 << k) == 0) by (bit_vector);
            }
            assert(bit_set == font_bit(code as int, i as int, j as int));
            assert((-0x60000 <= i as int * size as int <= 0x60000) && (-0x60000 <= j as int
                * size as int <= 0x60000)) by (nonlinear_arith)
                requires
                    0 <= i as int <= 7,
                    0 <= j as int <= 7,
                    -0x8000 <= size as int <= 0x8000,
            ;
        }
        let bx = x + i * size;
        let cy = y + j * size;
        if bit_set || bg != color {
            let col = if bit_set {
                color
            } else {
                bg
            };
            let ghost on = col == WHITE;
            let ghost block = fill_rect_pts(bx as int, cy as int, size as int, size as int);
            if size == 1 {
                self.plot(bx, cy, col);
                proof {
                    let p = (bx as int, cy as int);
                    lemma_unit_rect(p.0, p.1);
                    lemma_paint_pop(g, buf0, seq![p], on);
                    assert(seq![p].drop_first() =~= Seq::<(int, int)>::empty());
                    assert(paint(g, buf0, seq![p], on) == put_pixel(g, buf0, p.0, p.1, on));
                    lemma_paint_with_on(g, buf0, block, on);
                    assert(items == with_on(block, on));
                }
            } else {
                self.fill_rect_i64(bx, cy, size, size, col);
                proof {
                    lemma_paint_with_on(g, buf0, block, on);
                    assert(items == with_on(block, on));
                }
            }
        } else {
            proof {
                assert(items =~= Seq::<(int, int, bool)>::empty());
            }
        }
    }

    /// One scanline-filled region of a triangle: walk two edges with slope
    /// accumulators, drawing one horizontal line per row.
    #[verifier::loop_isolation(false)]
    fn scan_region(
        &mut self,
        ys: i64,
        yend: i64,
        xa: i64,
        dya: i64,
        dxa: i64,
        sa0: i64,
        xb: i64,
        dyb: i64,
        dxb: i64,
        sb0: i64,
        color: u8,
    )
        requires
            old(self).wf(),
            -0x20000 <= ys <= 0x20000,
            -0x20000 <= yend <= 0x20000,
            -0x8000 <= xa <= 0x8000,
            -0x8000 <= xb <= 0x8000,
            1 <= dya <= 0x20000,
            1 <= dyb <= 0x20000,
            -0x20000 <= dxa <= 0x20000,
            -0x20000 <= dxb <= 0x20000,
            -0x400000000 <= sa0 <= 0x400000000,
            -0x400000000 <= sb0 <= 0x400000000,
        ensures
            final(self).wf(),
            final(self).same_config(old(self)),
            final(self).buffer@ == paint(
                old(self).geom(),
                old(self).buffer@,
                tri_scan_pts(
                    ys as int,
                    yend as int,
                    xa as int,
                    dya as int,
                    dxa as int,
                    sa0 as int,
                    xb as int,
                    dyb as int,
                    dxb as int,
                    sb0 as int,
                ),
                color == WHITE,
            ),
    {
        let ghost g = old(self).geom();
        let ghost s0 = *old(self);
        let ghost con = color == WHITE;
        let ghost target = paint(
            g,
            s0.buffer@,
            tri_scan_pts(
                ys as int,
                yend as int,
                xa as int,
                dya as int,
                dxa as int,
                sa0 as int,
                xb as int,
                dyb as int,
                dxb as int,
                sb0 as int,
            ),
            con,
        );
        let mut sa = sa0;
        let mut sb = sb0;
        let mut y = ys;
        while y <= yend
            invariant
                self.wf(),
                self.same_config(&s0),
                ys <= y,
                y <= yend + 1 || y == ys,
                -(0x400000000 + (y - ys) * 0x20000) <= sa <= 0x400000000 + (y - ys) * 0x20000,
                -(0x400000000 + (y - ys) * 0x20000) <= sb <= 0x400000000 + (y - ys) * 0x20000,
                paint(
                    g,
                    self.buffer@,
                    tri_scan_pts(
                        y as int,
                        yend as int,
                        xa as int,
                        dya as int,
                        dxa as int,
                        sa as int,
                        xb as int,
                        dyb as int,
                        dxb as int,
                        sb as int,
                    ),
                    con,
                ) == target,
            decreases yend + 1 - y,
        {
            let ghost bufp = self.buffer@;
            let ghost rest = tri_scan_pts(
                y as int,
                yend as int,
                xa as int,
                dya as int,
                dxa as int,
                sa as int,
                xb as int,
                dyb as int,
                dxb as int,
                sb as int,
            );
            let a = xa + tdiv_i64(sa, dya);
            let b = xb + tdiv_i64(sb, dyb);
            sa = sa + dxa;
            sb = sb + dxb;
            let lo = if a > b {
                b
            } else {
                a
            };
            let hi = if a > b {
                a
            } else {
                b
            };
            self.hline_i64(lo, y, hi - lo + 1, color);
            proof {
                let head = hline_pts(lo as int, y as int, hi as int - lo as int + 1);
                let tail = tri_scan_pts(
                    y as int + 1,
                    yend as int,
                    xa as int,
                    dya as int,
                    dxa as int,
                    sa as int,
                    xb as int,
                    dyb as int,
                    dxb as int,
                    sb as int,
                );
                assert(rest == head + tail);
                lemma_paint_concat(g, bufp, head, tail, con);
            }
            y = y + 1;
        }
        proof {
            assert(tri_scan_pts(
                y as int,
                yend as int,
                xa as int,
                dya as int,
                dxa as int,
                sa as int,
                xb as int,
                dyb as int,
                dxb as int,
                sb as int,
            ) =~= Seq::<(int, int)>::empty());
        }
    }

}

impl Drawable for AdafruitGFX {
    open spec fn wf(&self) -> bool {
        &&& geom_wf(self.geom())
        &&& self.buffer@.len() == buf_len(self.geom())
        &&& self.textsize >= 1
    }

    open spec fn char_fits(&self, c: char) -> bool {
        wc_fits(self.text_state(), c)
    }

    open spec fn text_fits(&self, s: Seq<char>) -> bool {
        ws_fits(self.text_state(), s)
    }

    fn draw_pixel(&mut self, x: i16, y: i16, color: u8)
        ensures
            final(self).same_config(old(self)),
            final(self).buffer@ == put_pixel(
                old(self).geom(),
                old(self).buffer@,
                x as int,
                y as int,
                color == WHITE,
            ),
    {
        self.plot(x as i64, y as i64, color);
    }

    #[verifier::loop_isolation(false)]
    fn draw_circle(&mut self, x0: i16, y0: i16, r: i16, color: u8)
        ensures
            final(self).same_config(old(self)),
            final(self).buffer@ == paint(
                old(self).geom(),
                old(self).buffer@,
                circle_pts(x0 as int, y0 as int, r as int),
                color == WHITE,
            ),
    {
        let ghost g = old(self).geom();
        let ghost s0 = *old(self);
        let ghost con = color == WHITE;
        let cx = x0 as i64;
        let cy = y0 as i64;
        let rr = r as i64;
        let mut f: i64 = 1 - rr;
        let mut ddfx: i64 = 1;
        let mut ddfy: i64 = -(2 * rr);
        let mut x: i64 = 0;
        let mut y: i64 = rr;
        let ghost target = paint(g, s0.buffer@, circle_pts(cx as int, cy as int, rr as int), con);
        self.plot2(cx, cy + rr, cx, cy - rr, color);
        self.plot2(cx + rr, cy, cx - rr, cy, color);
        proof {
            let p1 = (cx as int, cy as int + rr as int);
            let p2 = (cx as int, cy as int - rr as int);
            let p3 = (cx as int + rr as int, cy as int);
            let p4 = (cx as int - rr as int, cy as int);
            let axis = seq![p1, p2, p3, p4];
            assert(axis =~= seq![p1, p2] + seq![p3, p4]);
            lemma_paint_concat(g, s0.buffer@, seq![p1, p2], seq![p3, p4], con);
            assert(self.buffer@ == paint(g, s0.buffer@, axis, con));
            let arc0 = circle_arc_pts(
                cx as int,
                cy as int,
                0,
                rr as int,
                1 - rr as int,
                1,
                -2 * rr as int,
            );
            assert(circle_pts(cx as int, cy as int, rr as int) == axis + arc0);
            lemma_paint_concat(g, s0.buffer@, axis, arc0, con);
        }
        while x < y
            invariant
                self.wf(),
                self.same_config(&s0),
                ddfx == 2 * x + 1,
                ddfy == -2 * y,
                rr >= 1 ==> 0 <= x <= y + 1 && y <= rr,
                rr < 1 ==> x == 0 && y == rr,
                -((x + 1) * 0x30000 + 0x10000) <= f <= (x + 1) * 0x30000 + 0x10000,
                paint(
                    g,
                    self.buffer@,
                    circle_arc_pts(
                        cx as int,
                        cy as int,
                        x as int,
                        y as int,
                        f as int,
                        ddfx as int,
                        ddfy as int,
                    ),
                    con,
                ) == target,
            decreases y + 1 - x,
        {
            let ghost bufp = self.buffer@;
            let ghost ox = x as int;
            let ghost oy = y as int;
            let ghost of = f as int;
            let ghost oddfx = ddfx as int;
            let ghost oddfy = ddfy as int;
            let ghost rest = circle_arc_pts(cx as int, cy as int, ox, oy, of, oddfx, oddfy);
            if f >= 0 {
                y = y - 1;
                ddfy = ddfy + 2;
                f = f + ddfy;
            }
            x = x + 1;
            ddfx = ddfx + 2;
            f = f + ddfx;
            let ghost tail = circle_arc_pts(
                cx as int,
                cy as int,
                x as int,
                y as int,
                f as int,
                ddfx as int,
                ddfy as int,
            );
            let ghost oct = octant_pts(cx as int, cy as int, x as int, y as int);
            proof {
                assert(rest == oct + tail);
            }
            let ghost q0 = (cx as int + x as int, cy as int + y as int);
            let ghost q1 = (cx as int - x as int, cy as int + y as int);
            let ghost q2 = (cx as int + x as int, cy as int - y as int);
            let ghost q3 = (cx as int - x as int, cy as int - y as int);
            let ghost q4 = (cx as int + y as int, cy as int + x as int);
            let ghost q5 = (cx as int - y as int, cy as int + x as int);
            let ghost q6 = (cx as int + y as int, cy as int - x as int);
            let ghost q7 = (cx as int - y as int, cy as int - x as int);
            self.plot2(cx + x, cy + y, cx - x, cy + y, color);
            self.plot2(cx + x, cy - y, cx - x, cy - y, color);
            self.plot2(cx + y, cy + x, cx - y, cy + x, color);
            self.plot2(cx + y, cy - x, cx - y, cy - x, color);
            proof {
                assert(oct =~= seq![q0, q1] + seq![q2, q3] + seq![q4, q5] + seq![q6, q7]);
                lemma_paint_concat(g, bufp, seq![q0, q1], seq![q2, q3], con);
                lemma_paint_concat(g, bufp, seq![q0, q1] + seq![q2, q3], seq![q4, q5], con);
                lemma_paint_concat(
                    g,
                    bufp,
                    seq![q0, q1] + seq![q2, q3] + seq![q4, q5],
                    seq![q6, q7],
                    con,
                );
                assert(self.buffer@ == paint(g, bufp, oct, con));
                lemma_paint_concat(g, bufp, oct, tail, con);
            }
        }
        proof {
            assert(circle_arc_pts(
                cx as int,
                cy as int,
                x as int,
                y as int,
                f as int,
                ddfx as int,
                ddfy as int,
            ) =~= Seq::<(int, int)>::empty());
        }
    }

    fn draw_circle_helper(&mut self, x0: i16, y0: i16, r: i16, cornername: u8, color: u8)
        ensures
            final(self).same_config(old(self)),
            final(self).buffer@ == paint(
                old(self).geom(),
                old(self).buffer@,
                circle_helper_pts(x0 as int, y0 as int, r as int, cornername),
                color == WHITE,
            ),
    {
        self.circle_helper_i64(x0 as i64, y0 as i64, r as i64, cornername, color);
    }

    fn fill_circle(&mut self, x0: i16, y0: i16, r: i16, color: u8)
        ensures
            final(self).same_config(old(self)),
            final(self).buffer@ == paint(
                old(self).geom(),
                old(self).buffer@,
                fill_circle_pts(x0 as int, y0 as int, r as int),
                color == WHITE,
            ),
    {
        let ghost g = old(self).geom();
        let ghost buf0 = old(self).buffer@;
        let ghost con = color == WHITE;
        self.vline_i64(x0 as i64, y0 as i64 - r as i64, 2 * (r as i64) + 1, color);
        self.fill_circle_helper(x0, y0, r, 3, 0, color);
        proof {
            lemma_paint_concat(
                g,
                buf0,
                vline_pts(x0 as int, y0 as int - r as int, 2 * r as int + 1),
                fill_circle_helper_pts(x0 as int, y0 as int, r as int, 3, 0),
                con,
            );
        }
    }

    fn fill_circle_helper(&mut self, x0: i16, y0: i16, r: i16, cornername: u8, delta: i16, color: u8)
        ensures
            final(self).same_config(old(self)),
            final(self).buffer@ == paint(
                old(self).geom(),
                old(self).buffer@,
                fill_circle_helper_pts(x0 as int, y0 as int, r as int, cornername, delta as int),
                color == WHITE,
            ),
    {
        self.fill_circle_helper_i64(x0 as i64, y0 as i64, r as i64, cornername, delta as i64, color);
    }

    fn draw_triangle(&mut self, x0: i16, y0: i16, x1: i16, y1: i16, x2: i16, y2: i16, color: u8)
        ensures
            final(self).same_config(old(self)),
            final(self).buffer@ == paint(
                old(self).geom(),
                old(self).buffer@,
                triangle_pts(x0 as int, y0 as int, x1 as int, y1 as int, x2 as int, y2 as int),
                color == WHITE,
            ),
    {
        let ghost g = old(self).geom();
        let ghost buf0 = old(self).buffer@;
        let ghost con = color == WHITE;
        self.line_i64(x0 as i64, y0 as i64, x1 as i64, y1 as i64, color);
        self.line_i64(x1 as i64, y1 as i64, x2 as i64, y2 as i64, color);
        self.line_i64(x2 as i64, y2 as i64, x0 as i64, y0 as i64, color);
        proof {
            let e01 = line_pts(x0 as int, y0 as int, x1 as int, y1 as int);
            let e12 = line_pts(x1 as int, y1 as int, x2 as int, y2 as int);
            let e20 = line_pts(x2 as int, y2 as int, x0 as int, y0 as int);
            lemma_paint_concat(g, buf0, e01, e12, con);
            lemma_paint_concat(g, buf0, e01 + e12, e20, con);
        }
    }

    #[verifier::loop_isolation(false)]
    #[verifier::rlimit(100)]
    #[verifier::spinoff_prover]
    fn fill_triangle(&mut self, x0: i16, y0: i16, x1: i16, y1: i16, x2: i16, y2: i16, color: u8)
        ensures
            final(self).same_config(old(self)),
            final(self).buffer@ == paint(
                old(self).geom(),
                old(self).buffer@,
                fill_triangle_pts(x0 as int, y0 as int, x1 as int, y1 as int, x2 as int, y2 as int),
                color == WHITE,
            ),
    {
        let ghost g = old(self).geom();
        let ghost s0 = *old(self);
        let ghost con = color == WHITE;
        let ghost full = fill_triangle_pts(
            x0 as int,
            y0 as int,
            x1 as int,
            y1 as int,
            x2 as int,
            y2 as int,
        );
        let mut xa0 = x0 as i64;
        let mut ya0 = y0 as i64;
        let mut xb0 = x1 as i64;
        let mut yb0 = y1 as i64;
        let mut xc0 = x2 as i64;
        let mut yc0 = y2 as i64;
        if ya0 > yb0 {
            let t = xa0;
            xa0 = xb0;
            xb0 = t;
            let t2 = ya0;
            ya0 = yb0;
            yb0 = t2;
        }
        if yb0 > yc0 {
            let t = xb0;
            xb0 = xc0;
            xc0 = t;
            let t2 = yb0;
            yb0 = yc0;
            yc0 = t2;
        }
        if ya0 > yb0 {
            let t = xa0;
            xa0 = xb0;
            xb0 = t;
            let t2 = ya0;
            ya0 = yb0;
            yb0 = t2;
        }
        if ya0 == yc0 {
            let mut a = xa0;
            let mut b = xa0;
            if xb0 < a {
                a = xb0;
            } else if xb0 > b {
                b = xb0;
            }
            if xc0 < a {
                a = xc0;
            } else if xc0 > b {
                b = xc0;
            }
            self.hline_i64(a, ya0, b - a + 1, color);
            proof {
                assert(full == hline_pts(a as int, ya0 as int, b as int - a as int + 1));
            }
            return ;
        }
        let dx01 = xb0 - xa0;
        let dy01 = yb0 - ya0;
        let dx02 = xc0 - xa0;
        let dy02 = yc0 - ya0;
        let dx12 = xc0 - xb0;
        let dy12 = yc0 - yb0;
        let last: i64 = if yb0 == yc0 {
            yb0
        } else {
            yb0 - 1
        };
        let ghost scan1 = tri_scan_pts(
            ya0 as int,
            last as int,
            xa0 as int,
            dy01 as int,
            dx01 as int,
            0,
            xa0 as int,
            dy02 as int,
            dx02 as int,
            0,
        );
        proof {
            assert((-((last as int + 2 - yb0 as int) * 0x20000) <= dx12 as int * (last as int + 1
                - yb0 as int) <= (last as int + 2 - yb0 as int) * 0x20000)) by (nonlinear_arith)
                requires
                    -0x20000 <= dx12 as int <= 0x20000,
                    0 <= last as int + 1 - yb0 as int <= 0x20000,
            ;
            assert((-((last as int + 2 - ya0 as int) * 0x20000) <= dx02 as int * (last as int + 1
                - ya0 as int) <= (last as int + 2 - ya0 as int) * 0x20000)) by (nonlinear_arith)
                requires
                    -0x20000 <= dx02 as int <= 0x20000,
                    0 <= last as int + 1 - ya0 as int <= 0x20000,
            ;
        }
        let sa2 = dx12 * (last + 1 - yb0);
        let sb2 = dx02 * (last + 1 - ya0);
        let ghost scan2 = tri_scan_pts(
            last as int + 1,
            yc0 as int,
            xb0 as int,
            dy12 as int,
            dx12 as int,
            sa2 as int,
            xa0 as int,
            dy02 as int,
            dx02 as int,
            sb2 as int,
        );
        proof {
            assert(full == scan1 + scan2);
            lemma_paint_concat(g, s0.buffer@, scan1, scan2, con);
        }
        if ya0 <= last {
            self.scan_region(ya0, last, xa0, dy01, dx01, 0, xa0, dy02, dx02, 0, color);
        }
        proof {
            if ya0 > last {
                assert(scan1 =~= Seq::<(int, int)>::empty());
            }
            assert(self.buffer@ == paint(g, s0.buffer@, scan1, con));
        }
        if last + 1 <= yc0 {
            self.scan_region(last + 1, yc0, xb0, dy12, dx12, sa2, xa0, dy02, dx02, sb2, color);
        }
        proof {
            if last + 1 > yc0 {
                assert(scan2 =~= Seq::<(int, int)>::empty());
            }
        }
    }

    fn draw_round_rect(&mut self, x0: i16, y0: i16, w: i16, h: i16, radius: i16, color: u8)
        ensures
            final(self).same_config(old(self)),
            final(self).buffer@ == paint(
                old(self).geom(),
                old(self).buffer@,
                round_rect_pts(x0 as int, y0 as int, w as int, h as int, radius as int),
                color == WHITE,
            ),
    {
        let ghost g = old(self).geom();
        let ghost buf0 = old(self).buffer@;
        let ghost con = color == WHITE;
        let x = x0 as i64;
        let y = y0 as i64;
        let ww = w as i64;
        let hh = h as i64;
        let r = radius as i64;
        let ghost s1 = hline_pts(x as int + r as int, y as int, ww as int - 2 * r as int);
        let ghost s2 = hline_pts(
            x as int + r as int,
            y as int + hh as int - 1,
            ww as int - 2 * r as int,
        );
        let ghost s3 = vline_pts(x as int, y as int + r as int, hh as int - 2 * r as int);
        let ghost s4 = vline_pts(
            x as int + ww as int - 1,
            y as int + r as int,
            hh as int - 2 * r as int,
        );
        let ghost c1 = circle_helper_pts(x as int + r as int, y as int + r as int, r as int, 1);
        let ghost c2 = circle_helper_pts(
            x as int + ww as int - r as int - 1,
            y as int + r as int,
            r as int,
            2,
        );
        let ghost c4 = circle_helper_pts(
            x as int + ww as int - r as int - 1,
            y as int + hh as int - r as int - 1,
            r as int,
            4,
        );
        let ghost c8 = circle_helper_pts(
            x as int + r as int,
            y as int + hh as int - r as int - 1,
            r as int,
            8,
        );
        self.hline_i64(x + r, y, ww - 2 * r, color);
        self.hline_i64(x + r, y + hh - 1, ww - 2 * r, color);
        self.vline_i64(x, y + r, hh - 2 * r, color);
        self.vline_i64(x + ww - 1, y + r, hh - 2 * r, color);
        self.circle_helper_i64(x + r, y + r, r, 1, color);
        self.circle_helper_i64(x + ww - r - 1, y + r, r, 2, color);
        self.circle_helper_i64(x + ww - r - 1, y + hh - r - 1, r, 4, color);
        self.circle_helper_i64(x + r, y + hh - r - 1, r, 8, color);
        proof {
            lemma_paint_concat(g, buf0, s1, s2, con);
            lemma_paint_concat(g, buf0, s1 + s2, s3, con);
            lemma_paint_concat(g, buf0, s1 + s2 + s3, s4, con);
            lemma_paint_concat(g, buf0, s1 + s2 + s3 + s4, c1, con);
            lemma_paint_concat(g, buf0, s1 + s2 + s3 + s4 + c1, c2, con);
            lemma_paint_concat(g, buf0, s1 + s2 + s3 + s4 + c1 + c2, c4, con);
            lemma_paint_concat(g, buf0, s1 + s2 + s3 + s4 + c1 + c2 + c4, c8, con);
        }
    }

    fn fill_round_rect(&mut self, x0: i16, y0: i16, w: i16, h: i16, radius: i16, color: u8)
        ensures
            final(self).same_config(old(self)),
            final(self).buffer@ == paint(
                old(self).geom(),
                old(self).buffer@,
                fill_round_rect_pts(x0 as int, y0 as int, w as int, h as int, radius as int),
                color == WHITE,
            ),
    {
        let ghost g = old(self).geom();
        let ghost buf0 = old(self).buffer@;
        let ghost con = color == WHITE;
        let x = x0 as i64;
        let y = y0 as i64;
        let ww = w as i64;
        let hh = h as i64;
        let r = radius as i64;
        let ghost s1 = fill_rect_pts(
            x as int + r as int,
            y as int,
            ww as int - 2 * r as int,
            hh as int,
        );
        let ghost c1 = fill_circle_helper_pts(
            x as int + ww as int - r as int - 1,
            y as int + r as int,
            r as int,
            1,
            hh as int - 2 * r as int - 1,
        );
        let ghost c2 = fill_circle_helper_pts(
            x as int + r as int,
            y as int + r as int,
            r as int,
            2,
            hh as int - 2 * r as int - 1,
        );
        self.fill_rect_i64(x + r, y, ww - 2 * r, hh, color);
        self.fill_circle_helper_i64(x + ww - r - 1, y + r, r, 1, hh - 2 * r - 1, color);
        self.fill_circle_helper_i64(x + r, y + r, r, 2, hh - 2 * r - 1, color);
        proof {
            lemma_paint_concat(g, buf0, s1, c1, con);
            lemma_paint_concat(g, buf0, s1 + c1, c2, con);
        }
    }

    fn draw_line(&mut self, x0: i16, y0: i16, x1: i16, y1: i16, color: u8)
        ensures
            final(self).same_config(old(self)),
            final(self).buffer@ == paint(
                old(self).geom(),
                old(self).buffer@,
                line_pts(x0 as int, y0 as int, x1 as int, y1 as int),
                color == WHITE,
            ),
    {
        self.line_i64(x0 as i64, y0 as i64, x1 as i64, y1 as i64, color);
    }

    fn draw_fast_v_line(&mut self, x: i16, y: i16, h: i16, color: u8)
        ensures
            final(self).same_config(old(self)),
            final(self).buffer@ == paint(
                old(self).geom(),
                old(self).buffer@,
                vline_pts(x as int, y as int, h as int),
                color == WHITE,
            ),
    {
        self.vline_i64(x as i64, y as i64, h as i64, color);
    }

    fn draw_fast_h_line(&mut self, x: i16, y: i16, w: i16, color: u8)
        ensures
            final(self).same_config(old(self)),
            final(self).buffer@ == paint(
                old(self).geom(),
                old(self).buffer@,
                hline_pts(x as int, y as int, w as int),
                color == WHITE,
            ),
    {
        self.hline_i64(x as i64, y as i64, w as i64, color);
    }

    fn fill_rect(&mut self, x: i16, y: i16, w: i16, h: i16, color: u8)
        ensures
            final(self).same_config(old(self)),
            final(self).buffer@ == paint(
                old(self).geom(),
                old(self).buffer@,
                fill_rect_pts(x as int, y as int, w as int, h as int),
                color == WHITE,
            ),
    {
        self.fill_rect_i64(x as i64, y as i64, w as i64, h as i64, color);
    }

    fn draw_rect(&mut self, x: i16, y: i16, w: i16, h: i16, color: u8)
        ensures
            final(self).same_config(old(self)),
            final(self).buffer@ == paint(
                old(self).geom(),
                old(self).buffer@,
                rect_pts(x as int, y as int, w as int, h as int),
                color == WHITE,
            ),
    {
        let ghost g = old(self).geom();
        let ghost buf0 = old(self).buffer@;
        let ghost con = color == WHITE;
        let ghost top = hline_pts(x as int, y as int, w as int);
        let ghost bottom = hline_pts(x as int, y as int + h as int - 1, w as int);
        let ghost left = vline_pts(x as int, y as int, h as int);
        let ghost right = vline_pts(x as int + w as int - 1, y as int, h as int);
        self.hline_i64(x as i64, y as i64, w as i64, color);
        self.hline_i64(x as i64, y as i64 + h as i64 - 1, w as i64, color);
        self.vline_i64(x as i64, y as i64, h as i64, color);
        self.vline_i64(x as i64 + w as i64 - 1, y as i64, h as i64, color);
        proof {
            lemma_paint_concat(g, buf0, top, bottom, con);
            lemma_paint_concat(g, buf0, top + bottom, left, con);
            lemma_paint_concat(g, buf0, top + bottom + left, right, con);
        }
    }

    fn fill_screen(&mut self, color: u8)
        ensures
            final(self).same_config(old(self)),
            final(self).buffer@ == paint(
                old(self).geom(),
                old(self).buffer@,
                fill_rect_pts(0, 0, old(self).width as int, old(self).height as int),
                color == WHITE,
            ),
    {
        let w = self.width;
        let h = self.height;
        self.fill_rect_i64(0, 0, w as i64, h as i64, color);
    }

    #[verifier::loop_isolation(false)]
    fn draw_bitmap(&mut self, x: i16, y: i16, bitmap: &[u8], w: i16, h: i16, color: u8)
        ensures
            final(self).same_config(old(self)),
            final(self).buffer@ == paint(
                old(self).geom(),
                old(self).buffer@,
                bitmap_pts(x as int, y as int, bitmap@, w as int, h as int),
                color == WHITE,
            ),
    {
        let ghost g = old(self).geom();
        let ghost s0 = *old(self);
        let ghost con = color == WHITE;
        let ghost bm = bitmap@;
        let xs = x as i64;
        let ys = y as i64;
        let wl = w as i64;
        let hl = h as i64;
        let ghost target = paint(
            g,
            s0.buffer@,
            bitmap_pts(xs as int, ys as int, bm, wl as int, hl as int),
            con,
        );
        let mut j: i64 = 0;
        while j < hl
            invariant
                self.wf(),
                self.same_config(&s0),
                0 <= j <= hl || j == 0,
                paint(
                    g,
                    self.buffer@,
                    bitmap_pts_from(xs as int, ys as int, bm, wl as int, hl as int, j as int),
                    con,
                ) == target,
            decreases hl - j,
        {
            let mut i: i64 = 0;
            while i < wl
                invariant
                    self.wf(),
                    self.same_config(&s0),
                    0 <= i <= wl || i == 0,
                    0 <= j < hl,
                    paint(
                        g,
                        self.buffer@,
                        bitmap_row_pts(xs as int, ys as int, bm, wl as int, j as int, i as int)
                            + bitmap_pts_from(
                            xs as int,
                            ys as int,
                            bm,
                            wl as int,
                            hl as int,
                            j as int + 1,
                        ),
                        con,
                    ) == target,
                decreases wl - i,
            {
                let ghost bufp = self.buffer@;
                let ghost rowi = bitmap_row_pts(
                    xs as int,
                    ys as int,
                    bm,
                    wl as int,
                    j as int,
                    i as int,
                );
                let ghost rowi1 = bitmap_row_pts(
                    xs as int,
                    ys as int,
                    bm,
                    wl as int,
                    j as int,
                    i as int + 1,
                );
                let ghost below = bitmap_pts_from(
                    xs as int,
                    ys as int,
                    bm,
                    wl as int,
                    hl as int,
                    j as int + 1,
                );
                let ghost cell = if bitmap_bit(bm, wl as int, i as int, j as int) {
                    seq![(xs as int + i as int, ys as int + j as int)]
                } else {
                    Seq::<(int, int)>::empty()
                };
                proof {
                    lemma_bitmap_index(wl as int, hl as int, i as int, j as int);
                    vstd::arithmetic::div_mod::lemma_div_is_ordered(j as int, 0x7fff, 8);
                    vstd::arithmetic::mul::lemma_mul_upper_bound(
                        j as int / 8,
                        0xfff,
                        wl as int,
                        0x7fff,
                    );
                    assert(rowi == cell + rowi1);
                    assert((cell + rowi1) + below =~= cell + (rowi1 + below));
                }
                let ju = j as u64;
                let idx = (i + ((ju / 8) as i64) * wl) as usize;
                let byte = bitmap[idx];
                let mask = bv((ju % 8) as u8);
                if byte & mask != 0 {
                    self.plot(xs + i, ys + j, color);
                    proof {
                        let p = (xs as int + i as int, ys as int + j as int);
                        assert(cell == seq![p]);
                        lemma_paint_pop(g, bufp, cell + (rowi1 + below), con);
                        assert((cell + (rowi1 + below))[0] == p);
                        assert((cell + (rowi1 + below)).drop_first() =~= rowi1 + below);
                    }
                } else {
                    proof {
                        assert(cell =~= Seq::<(int, int)>::empty());
                        assert(cell + (rowi1 + below) =~= rowi1 + below);
                    }
                }
                i = i + 1;
            }
            proof {
                assert(bitmap_row_pts(xs as int, ys as int, bm, wl as int, j as int, i as int)
                    =~= Seq::<(int, int)>::empty());
                assert(bitmap_row_pts(xs as int, ys as int, bm, wl as int, j as int, i as int)
                    + bitmap_pts_from(xs as int, ys as int, bm, wl as int, hl as int, j as int + 1)
                    =~= bitmap_pts_from(xs as int, ys as int, bm, wl as int, hl as int, j as int
                    + 1));
            }
            j = j + 1;
        }
        proof {
            assert(bitmap_pts_from(xs as int, ys as int, bm, wl as int, hl as int, j as int)
                =~= Seq::<(int, int)>::empty());
        }
    }

    fn putc(&mut self, value: char) -> (r: u8)
        ensures
            final(self).same_geom(old(self)),
            final(self).same_text_style(old(self)),
            final(self).cursor_x as int == wc_next(old(self).text_state(), value).cx,
            final(self).cursor_y as int == wc_next(old(self).text_state(), value).cy,
            final(self).buffer@ == wc_paint(
                old(self).geom(),
                old(self).buffer@,
                old(self).text_state(),
                value,
                old(self).textcolor == WHITE,
                old(self).textbgcolor == WHITE,
                old(self).textbgcolor != old(self).textcolor,
            ),
            r == 1,
    {
        self.write_char(value)
    }

    fn getc(&self) -> (r: i32)
        ensures
            r == -1,
    {
        -1
    }

    fn write_char(&mut self, value: char) -> (r: u8)
        ensures
            final(self).same_geom(old(self)),
            final(self).same_text_style(old(self)),
            final(self).cursor_x as int == wc_next(old(self).text_state(), value).cx,
            final(self).cursor_y as int == wc_next(old(self).text_state(), value).cy,
            final(self).buffer@ == wc_paint(
                old(self).geom(),
                old(self).buffer@,
                old(self).text_state(),
                value,
                old(self).textcolor == WHITE,
                old(self).textbgcolor == WHITE,
                old(self).textbgcolor != old(self).textcolor,
            ),
            r == 1,
    {
        if value == '\n' {
            let ny = self.cursor_y as i64 + 8 * (self.textsize as i64);
            self.cursor_y = ny as i16;
            self.cursor_x = 0;
        } else if value == '\r' {
            self.cursor_x = 0;
        } else {
            let cxl = self.cursor_x;
            let cyl = self.cursor_y;
            let code = ((value as u32) % 256) as u8;
            let tc = self.textcolor;
            let tb = self.textbgcolor;
            let ts = self.textsize;
            self.draw_char(cxl, cyl, code, tc, tb, ts);
            let nx = self.cursor_x as i64 + 6 * (self.textsize as i64);
            self.cursor_x = nx as i16;
            if self.wrap && (self.cursor_x as i64) > (self.width as i64) - 6 * (self.textsize
                as i64) {
                let ny = self.cursor_y as i64 + 8 * (self.textsize as i64);
                self.cursor_y = ny as i16;
                self.cursor_x = 0;
            }
        }
        1
    }

    #[verifier::loop_isolation(false)]
    fn write_string(&mut self, value: &str)
        ensures
            final(self).same_geom(old(self)),
            final(self).same_text_style(old(self)),
            final(self).cursor_x as int == ws_next(old(self).text_state(), value@).cx,
            final(self).cursor_y as int == ws_next(old(self).text_state(), value@).cy,
            final(self).buffer@ == ws_paint(
                old(self).geom(),
                old(self).buffer@,
                old(self).text_state(),
                value@,
                old(self).textcolor == WHITE,
                old(self).textbgcolor == WHITE,
                old(self).textbgcolor != old(self).textcolor,
            ),
    {
        let ghost g = old(self).geom();
        let ghost s0 = *old(self);
        let ghost t0 = old(self).text_state();
        let ghost con = old(self).textcolor == WHITE;
        let ghost bon = old(self).textbgcolor == WHITE;
        let ghost dbg = old(self).textbgcolor != old(self).textcolor;
        let n = value.unicode_len();
        proof {
            assert(value@.skip(0) =~= value@);
        }
        let mut k: usize = 0;
        while k < n
            invariant
                self.wf(),
                self.same_geom(&s0),
                self.same_text_style(&s0),
                k <= n,
                n == value@.len(),
                ws_fits(self.text_state(), value@.skip(k as int)),
                ws_next(self.text_state(), value@.skip(k as int)) == ws_next(t0, value@),
                ws_paint(
                    g,
                    self.buffer@,
                    self.text_state(),
                    value@.skip(k as int),
                    con,
                    bon,
                    dbg,
                ) == ws_paint(g, s0.buffer@, t0, value@, con, bon, dbg),
            decreases n - k,
        {
            let ghost rest = value@.skip(k as int);
            let c = value.get_char(k);
            proof {
                assert(rest[0] == value@[k as int]);
                assert(rest.drop_first() =~= value@.skip(k as int + 1));
            }
            self.write_char(c);
            k = k + 1;
        }
        proof {
            assert(value@.skip(n as int) =~= Seq::<char>::empty());
        }
    }

    #[verifier::loop_isolation(false)]
    fn draw_char(&mut self, x: i16, y: i16, c: u8, color: u8, bg: u8, size: i16)
        ensures
            final(self).same_config(old(self)),
            final(self).buffer@ == char_paint(
                old(self).geom(),
                old(self).buffer@,
                x as int,
                y as int,
                c as int,
                size as int,
                color == WHITE,
                bg == WHITE,
                bg != color,
            ),
    {
        let ghost g = old(self).geom();
        let ghost s0 = *old(self);
        let ghost con = color == WHITE;
        let ghost bon = bg == WHITE;
        let ghost dbg = bg != color;
        let xs = x as i64;
        let ys = y as i64;
        let ss = size as i64;
        if x >= self.width || y >= self.height || xs + 5 * ss - 1 < 0 || ys + 8 * ss - 1 < 0 {
            proof {
                assert(glyph_skipped(g, xs as int, ys as int, ss as int));
            }
            return ;
        }
        let ghost target = paint_items(
            g,
            s0.buffer@,
            glyph_items(xs as int, ys as int, c as int, ss as int, con, bon, dbg),
        );
        let mut i: i64 = 0;
        while i < 6
            invariant
                self.wf(),
                self.same_config(&s0),
                0 <= i <= 6,
                paint_items(
                    g,
                    self.buffer@,
                    glyph_items_from(xs as int, ys as int, c as int, ss as int, i as int, con, bon, dbg),
                ) == target,
            decreases 6 - i,
        {
            let mut j: i64 = 0;
            while j < 8
                invariant
                    self.wf(),
                    self.same_config(&s0),
                    0 <= i <= 5,
                    0 <= j <= 8,
                    paint_items(
                        g,
                        self.buffer@,
                        glyph_col_items(
                            xs as int,
                            ys as int,
                            c as int,
                            ss as int,
                            i as int,
                            j as int,
                            con,
                            bon,
                            dbg,
                        ) + glyph_items_from(
                            xs as int,
                            ys as int,
                            c as int,
                            ss as int,
                            i as int + 1,
                            con,
                            bon,
                            dbg,
                        ),
                    ) == target,
                decreases 8 - j,
            {
                let ghost bufp = self.buffer@;
                let ghost cell = glyph_cell_items(
                    xs as int,
                    ys as int,
                    c as int,
                    ss as int,
                    i as int,
                    j as int,
                    con,
                    bon,
                    dbg,
                );
                let ghost colj1 = glyph_col_items(
                    xs as int,
                    ys as int,
                    c as int,
                    ss as int,
                    i as int,
                    j as int + 1,
                    con,
                    bon,
                    dbg,
                );
                let ghost outer = glyph_items_from(
                    xs as int,
                    ys as int,
                    c as int,
                    ss as int,
                    i as int + 1,
                    con,
                    bon,
                    dbg,
                );
                proof {
                    assert(glyph_col_items(
                        xs as int,
                        ys as int,
                        c as int,
                        ss as int,
                        i as int,
                        j as int,
                        con,
                        bon,
                        dbg,
                    ) == cell + colj1);
                    assert((cell + colj1) + outer =~= cell + (colj1 + outer));
                }
                self.draw_glyph_cell(xs, ys, c, ss, i, j, color, bg);
                proof {
                    lemma_paint_items_concat(g, bufp, cell, colj1 + outer);
                }
                j = j + 1;
            }
            proof {
                assert(glyph_col_items(
                    xs as int,
                    ys as int,
                    c as int,
                    ss as int,
                    i as int,
                    8,
                    con,
                    bon,
                    dbg,
                ) =~= Seq::<(int, int, bool)>::empty());
                assert(glyph_col_items(
                    xs as int,
                    ys as int,
                    c as int,
                    ss as int,
                    i as int,
                    8,
                    con,
                    bon,
                    dbg,
                ) + glyph_items_from(
                    xs as int,
                    ys as int,
                    c as int,
                    ss as int,
                    i as int + 1,
                    con,
                    bon,
                    dbg,
                ) =~= glyph_items_from(
                    xs as int,
                    ys as int,
                    c as int,
                    ss as int,
                    i as int + 1,
                    con,
                    bon,
                    dbg,
                ));
            }
            i = i + 1;
        }
        proof {
            assert(glyph_items_from(xs as int, ys as int, c as int, ss as int, i as int, con, bon, dbg)
                =~= Seq::<(int, int, bool)>::empty());
        }
    }

    fn get_width(&self) -> (r: i16)
        ensures
            r == self.width,
    {
        self.width
    }

    fn get_height(&self) -> (r: i16)
        ensures
            r == self.height,
    {
        self.height
    }

    fn set_text_cursor(&mut self, x: i16, y: i16)
        ensures
            final(self).cursor_x == x,
            final(self).cursor_y == y,
            final(self).same_geom(old(self)),
            final(self).same_text_style(old(self)),
            final(self).buffer@ == old(self).buffer@,
    {
        self.cursor_x = x;
        self.cursor_y = y;
    }

    fn set_text_size(&mut self, s: i16)
        ensures
            final(self).textsize == if s > 0 {
                s
            } else {
                1i16
            },
            final(self).same_geom(old(self)),
            final(self).cursor_x == old(self).cursor_x,
            final(self).cursor_y == old(self).cursor_y,
            final(self).textcolor == old(self).textcolor,
            final(self).textbgcolor == old(self).textbgcolor,
            final(self).wrap == old(self).wrap,
            final(self).buffer@ == old(self).buffer@,
    {
        self.textsize = if s > 0 {
            s
        } else {
            1
        };
    }

    fn set_text_color(&mut self, c: u8)
        ensures
            final(self).textcolor == c,
            final(self).textbgcolor == c,
            final(self).same_geom(old(self)),
            final(self).cursor_x == old(self).cursor_x,
            final(self).cursor_y == old(self).cursor_y,
            final(self).textsize == old(self).textsize,
            final(self).wrap == old(self).wrap,
            final(self).buffer@ == old(self).buffer@,
    {
        self.textcolor = c;
        self.textbgcolor = c;
    }

    fn set_text_color_independent(&mut self, c: u8, b: u8)
        ensures
            final(self).textcolor == c,
            final(self).textbgcolor == b,
            final(self).same_geom(old(self)),
            final(self).cursor_x == old(self).cursor_x,
            final(self).cursor_y == old(self).cursor_y,
            final(self).textsize == old(self).textsize,
            final(self).wrap == old(self).wrap,
            final(self).buffer@ == old(self).buffer@,
    {
        self.textcolor = c;
        self.textbgcolor = b;
    }

    fn set_text_wrap(&mut self, w: bool)
        ensures
            final(self).wrap == w,
            final(self).same_geom(old(self)),
            final(self).cursor_x == old(self).cursor_x,
            final(self).cursor_y == old(self).cursor_y,
            final(self).textsize == old(self).textsize,
            final(self).textcolor == old(self).textcolor,
            final(self).textbgcolor == old(self).textbgcolor,
            final(self).buffer@ == old(self).buffer@,
    {
        self.wrap = w;
    }

    fn set_rotation(&mut self, r: u8)
        ensures
            *final(self) == old(self).with_rotation(r),
    {
        self.rotation = r % 4;
        match self.rotation {
            0 | 2 => {
                self.width = self.raw_width;
                self.height = self.raw_height;
            },
            1 | 3 => {
                self.width = self.raw_height;
                self.height = self.raw_width;
            },
            _ => {},
        }
    }

    fn get_rotation(&mut self) -> (r: u8)
        ensures
            *final(self) == *old(self),
            r == old(self).rotation,
    {
        proof {
            assert(self.rotation % 4 == self.rotation);
        }
        self.rotation = self.rotation % 4;
        self.rotation
    }

    fn swap(&mut self, a: &mut i16, b: &mut i16)
        ensures
            *final(self) == *old(self),
    {
        let t = *a;
        *a = *b;
        *b = t;
    }
}

} // verus!
