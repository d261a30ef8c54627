//! Point sequences of the rasterization algorithms: exactly the pixels, in
//! exactly the order, that the drawing operations write.

use vstd::prelude::*;
use vstd::math::abs;
use crate::glcdfont::font_bit;
use crate::raster::{paint_items, with_on, Geom};

verus! {

/// Division truncating toward zero, as the machine's signed division does.
pub open spec fn tdiv(a: int, b: int) -> int {
    if a >= 0 {
        a / b
    } else {
        -((-a) / b)
    }
}

/// The points of one Bresenham run over the major axis `a`, carrying the
/// minor coordinate `b` and the error accumulator; emitted transposed when
/// the line is steep.
pub open spec fn bres_pts(
    a: int,
    a1: int,
    b: int,
    err: int,
    dx: int,
    dy: int,
    bstep: int,
    steep: bool,
) -> Seq<(int, int)>
    decreases a1 + 1 - a,
{
    if a > a1 {
        Seq::empty()
    } else {
        let p = if steep {
            (b, a)
        } else {
            (a, b)
        };
        let e2 = err - dy;
        let b2 = if e2 < 0 {
            b + bstep
        } else {
            b
        };
        let e3 = if e2 < 0 {
            e2 + dx
        } else {
            e2
        };
        seq![p] + bres_pts(a + 1, a1, b2, e3, dx, dy, bstep, steep)
    }
}

/// The pixels of the general line from (x0, y0) to (x1, y1): transposed to
/// run over the major axis, reordered so iteration runs low to high, then
/// rasterized with an error accumulator starting at half the major delta.
pub open spec fn line_pts(x0: int, y0: int, x1: int, y1: int) -> Seq<(int, int)> {
    let steep = abs(y1 - y0) > abs(x1 - x0);
    let (ta0, tb0, ta1, tb1) = if steep {
        (y0, x0, y1, x1)
    } else {
        (x0, y0, x1, y1)
    };
    let (a0, b0, a1, b1) = if ta0 > ta1 {
        (ta1, tb1, ta0, tb0)
    } else {
        (ta0, tb0, ta1, tb1)
    };
    bres_pts(
        a0,
        a1,
        b0,
        (a1 - a0) / 2,
        a1 - a0,
        abs(b1 - b0) as int,
        if b0 < b1 {
            1
        } else {
            -1
        },
        steep,
    )
}

/// A fast horizontal line is the general line across its own row.
pub open spec fn hline_pts(x: int, y: int, w: int) -> Seq<(int, int)> {
    line_pts(x, y, x + w - 1, y)
}

/// A fast vertical line is the general line down its own column.
pub open spec fn vline_pts(x: int, y: int, h: int) -> Seq<(int, int)> {
    line_pts(x, y, x, y + h - 1)
}

/// A filled rectangle: one vertical line per column, left to right.
pub open spec fn fill_rect_pts(x: int, y: int, w: int, h: int) -> Seq<(int, int)>
    decreases w,
{
    if w <= 0 {
        Seq::empty()
    } else {
        vline_pts(x, y, h) + fill_rect_pts(x + 1, y, w - 1, h)
    }
}

/// The eight symmetric points the circle loop plots in one iteration.
pub open spec fn octant_pts(cx: int, cy: int, x: int, y: int) -> Seq<(int, int)> {
    seq![
        (cx + x, cy + y),
        (cx - x, cy + y),
        (cx + x, cy - y),
        (cx - x, cy - y),
        (cx + y, cy + x),
        (cx - y, cy + x),
        (cx + y, cy - x),
        (cx - y, cy - x),
    ]
}

/// The points of the midpoint circle loop from state (x, y, f): while
/// x < y, step the decision variable, then plot all eight reflections of
/// the new (x, y).
pub open spec fn circle_arc_pts(
    cx: int,
    cy: int,
    x: int,
    y: int,
    f: int,
    ddfx: int,
    ddfy: int,
) -> Seq<(int, int)>
    decreases y + 1 - x,
{
    if x >= y {
        Seq::empty()
    } else {
        let y2 = if f >= 0 {
            y - 1
        } else {
            y
        };
        let ddfy2 = if f >= 0 {
            ddfy + 2
        } else {
            ddfy
        };
        let f2 = if f >= 0 {
            f + ddfy + 2
        } else {
            f
        };
        let x2 = x + 1;
        let ddfx2 = ddfx + 2;
        let f3 = f2 + ddfx2;
        octant_pts(cx, cy, x2, y2) + circle_arc_pts(cx, cy, x2, y2, f3, ddfx2, ddfy2)
    }
}

/// A full circle outline: the four axis points, then the midpoint loop.
pub open spec fn circle_pts(cx: int, cy: int, r: int) -> Seq<(int, int)> {
    seq![(cx, cy + r), (cx, cy - r), (cx + r, cy), (cx - r, cy)] + circle_arc_pts(
        cx,
        cy,
        0,
        r,
        1 - r,
        1,
        -2 * r,
    )
}

/// The point pairs one iteration of the quadrant helper plots for a corner
/// mask.
pub open spec fn corner_octant_pts(cx: int, cy: int, x: int, y: int, corner: u8) -> Seq<
    (int, int),
> {
    (if corner & 0x4 != 0 {
        seq![(cx + x, cy + y), (cx + y, cy + x)]
    } else {
        Seq::empty()
    }) + (if corner & 0x2 != 0 {
        seq![(cx + x, cy - y), (cx + y, cy - x)]
    } else {
        Seq::empty()
    }) + (if corner & 0x8 != 0 {
        seq![(cx - y, cy + x), (cx - x, cy + y)]
    } else {
        Seq::empty()
    }) + (if corner & 0x1 != 0 {
        seq![(cx - y, cy - x), (cx - x, cy - y)]
    } else {
        Seq::empty()
    })
}

/// The points of the quadrant-outline helper loop.
pub open spec fn helper_arc_pts(
    cx: int,
    cy: int,
    x: int,
    y: int,
    f: int,
    ddfx: int,
    ddfy: int,
    corner: u8,
) -> Seq<(int, int)>
    decreases y + 1 - x,
{
    if x >= y {
        Seq::empty()
    } else {
        let y2 = if f >= 0 {
            y - 1
        } else {
            y
        };
        let ddfy2 = if f >= 0 {
            ddfy + 2
        } else {
            ddfy
        };
        let f2 = if f >= 0 {
            f + ddfy + 2
        } else {
            f
        };
        let x2 = x + 1;
        let ddfx2 = ddfx + 2;
        let f3 = f2 + ddfx2;
        corner_octant_pts(cx, cy, x2, y2, corner) + helper_arc_pts(
            cx,
            cy,
            x2,
            y2,
            f3,
            ddfx2,
            ddfy2,
            corner,
        )
    }
}

/// The quadrant-outline helper from its initial state.
pub open spec fn circle_helper_pts(cx: int, cy: int, r: int, corner: u8) -> Seq<(int, int)> {
    helper_arc_pts(cx, cy, 0, r, 1 - r, 1, -2 * r, corner)
}

/// The vertical spans one iteration of the quadrant-fill helper draws for a
/// corner mask.
pub open spec fn corner_span_pts(cx: int, cy: int, x: int, y: int, corner: u8, delta: int) -> Seq<
    (int, int),
> {
    (if corner & 0x1 != 0 {
        vline_pts(cx + x, cy - y, 2 * y + 1 + delta) + vline_pts(cx + y, cy - x, 2 * x + 1 + delta)
    } else {
        Seq::empty()
    }) + (if corner & 0x2 != 0 {
        vline_pts(cx - x, cy - y, 2 * y + 1 + delta) + vline_pts(cx - y, cy - x, 2 * x + 1 + delta)
    } else {
        Seq::empty()
    })
}

/// The points of the quadrant-fill helper loop.
pub open spec fn fill_arc_pts(
    cx: int,
    cy: int,
    x: int,
    y: int,
    f: int,
    ddfx: int,
    ddfy: int,
    corner: u8,
    delta: int,
) -> Seq<(int, int)>
    decreases y + 1 - x,
{
    if x >= y {
        Seq::empty()
    } else {
        let y2 = if f >= 0 {
            y - 1
        } else {
            y
        };
        let ddfy2 = if f >= 0 {
            ddfy + 2
        } else {
            ddfy
        };
        let f2 = if f >= 0 {
            f + ddfy + 2
        } else {
            f
        };
        let x2 = x + 1;
        let ddfx2 = ddfx + 2;
        let f3 = f2 + ddfx2;
        corner_span_pts(cx, cy, x2, y2, corner, delta) + fill_arc_pts(
            cx,
            cy,
            x2,
            y2,
            f3,
            ddfx2,
            ddfy2,
            corner,
            delta,
        )
    }
}

/// The quadrant-fill helper from its initial state.
pub open spec fn fill_circle_helper_pts(cx: int, cy: int, r: int, corner: u8, delta: int) -> Seq<
    (int, int),
> {
    fill_arc_pts(cx, cy, 0, r, 1 - r, 1, -2 * r, corner, delta)
}

/// A filled circle: the full vertical diameter, then side-quadrant spans.
pub open spec fn fill_circle_pts(cx: int, cy: int, r: int) -> Seq<(int, int)> {
    vline_pts(cx, cy - r, 2 * r + 1) + fill_circle_helper_pts(cx, cy, r, 3, 0)
}

/// A rectangle outline: top, bottom, left and right fast lines, in order.
pub open spec fn rect_pts(x: int, y: int, w: int, h: int) -> Seq<(int, int)> {
    hline_pts(x, y, w) + hline_pts(x, y + h - 1, w) + vline_pts(x, y, h) + vline_pts(
        x + w - 1,
        y,
        h,
    )
}

/// A rounded-rectangle outline: four straight edges, then the four corner
/// arcs.
pub open spec fn round_rect_pts(x: int, y: int, w: int, h: int, r: int) -> Seq<(int, int)> {
    hline_pts(x + r, y, w - 2 * r) + hline_pts(x + r, y + h - 1, w - 2 * r) + vline_pts(
        x,
        y + r,
        h - 2 * r,
    ) + vline_pts(x + w - 1, y + r, h - 2 * r) + circle_helper_pts(x + r, y + r, r, 1)
        + circle_helper_pts(x + w - r - 1, y + r, r, 2) + circle_helper_pts(
        x + w - r - 1,
        y + h - r - 1,
        r,
        4,
    ) + circle_helper_pts(x + r, y + h - r - 1, r, 8)
}

/// A filled rounded rectangle: the middle slab, then the two filled sides.
pub open spec fn fill_round_rect_pts(x: int, y: int, w: int, h: int, r: int) -> Seq<(int, int)> {
    fill_rect_pts(x + r, y, w - 2 * r, h) + fill_circle_helper_pts(
        x + w - r - 1,
        y + r,
        r,
        1,
        h - 2 * r - 1,
    ) + fill_circle_helper_pts(x + r, y + r, r, 2, h - 2 * r - 1)
}

/// A triangle outline: the three edges, drawn vertex to vertex.
pub open spec fn triangle_pts(x0: int, y0: int, x1: int, y1: int, x2: int, y2: int) -> Seq<
    (int, int),
> {
    line_pts(x0, y0, x1, y1) + line_pts(x1, y1, x2, y2) + line_pts(x2, y2, x0, y0)
}

/// The scanlines of one region of a filled triangle: each row's bounds come
/// from two rational edge-slope accumulators, swapped if needed, and the
/// row is one fast horizontal line.
pub open spec fn tri_scan_pts(
    y: int,
    yend: int,
    xa: int,
    dya: int,
    dxa: int,
    sa: int,
    xb: int,
    dyb: int,
    dxb: int,
    sb: int,
) -> Seq<(int, int)>
    decreases yend + 1 - y,
{
    if y > yend {
        Seq::empty()
    } else {
        let a = xa + tdiv(sa, dya);
        let b = xb + tdiv(sb, dyb);
        let lo = if a > b {
            b
        } else {
            a
        };
        let hi = if a > b {
            a
        } else {
            b
        };
        hline_pts(lo, y, hi - lo + 1) + tri_scan_pts(
            y + 1,
            yend,
            xa,
            dya,
            dxa,
            sa + dxa,
            xb,
            dyb,
            dxb,
            sb + dxb,
        )
    }
}

/// A Bresenham run with a zero minor delta never steps the minor
/// coordinate: it is a straight run along the major axis.
pub proof fn lemma_bres_straight(a0: int, a1: int, b: int, err: int, dx: int, bstep: int, steep: bool)
    requires
        err >= 0,
    ensures
        bres_pts(a0, a1, b, err, dx, 0, bstep, steep).len() == if a0 <= a1 {
            a1 + 1 - a0
        } else {
            0
        },
        forall|n: int|
            0 <= n < bres_pts(a0, a1, b, err, dx, 0, bstep, steep).len()
                ==> bres_pts(a0, a1, b, err, dx, 0, bstep, steep)[n] == (if steep {
                (b, a0 + n)
            } else {
                (a0 + n, b)
            }),
    decreases a1 + 1 - a0,
{
    if a0 <= a1 {
        lemma_bres_straight(a0 + 1, a1, b, err, dx, bstep, steep);
    }
}

/// A fast horizontal line of positive width is exactly the run of points
/// from its left end to its right end.
pub proof fn lemma_hline_pts(x: int, y: int, w: int)
    requires
        w >= 1,
    ensures
        hline_pts(x, y, w).len() == w,
        forall|n: int| 0 <= n < w ==> hline_pts(x, y, w)[n] == (x + n, y),
        forall|px: int, py: int|
            hline_pts(x, y, w).contains((px, py)) <==> (py == y && x <= px < x + w),
{
    let pts = hline_pts(x, y, w);
    assert(pts == bres_pts(x, x + w - 1, y, (w - 1) / 2, w - 1, 0, -1, false));
    vstd::arithmetic::div_mod::lemma_div_pos_is_pos(w - 1, 2);
    lemma_bres_straight(x, x + w - 1, y, (w - 1) / 2, w - 1, -1, false);
    assert forall|px: int, py: int|
        pts.contains((px, py)) <==> (py == y && x <= px < x + w) by {
        if py == y && x <= px < x + w {
            assert(pts[px - x] == (px, py));
        }
        if pts.contains((px, py)) {
            let n = choose|n: int| 0 <= n < pts.len() && pts[n] == (px, py);
            assert(pts[n] == (x + n, y));
        }
    }
}

/// Bit (i, j) of a packed monochrome source bitmap: 8 rows per byte,
/// exactly as the on-screen buffer is packed.
pub open spec fn bitmap_bit(bm: Seq<u8>, w: int, i: int, j: int) -> bool {
    bm[i + (j / 8) * w] & (1u8 << ((j % 8) as u8)) != 0
}

/// The destination points of one bitmap row from column `i` on: each set
/// source bit contributes its destination pixel.
pub open spec fn bitmap_row_pts(x: int, y: int, bm: Seq<u8>, w: int, j: int, i: int) -> Seq<
    (int, int),
>
    decreases w - i,
{
    if i >= w {
        Seq::empty()
    } else {
        (if bitmap_bit(bm, w, i, j) {
            seq![(x + i, y + j)]
        } else {
            Seq::empty()
        }) + bitmap_row_pts(x, y, bm, w, j, i + 1)
    }
}

/// The destination points of a bitmap from row `j` on.
pub open spec fn bitmap_pts_from(x: int, y: int, bm: Seq<u8>, w: int, h: int, j: int) -> Seq<
    (int, int),
>
    decreases h - j,
{
    if j >= h {
        Seq::empty()
    } else {
        bitmap_row_pts(x, y, bm, w, j, 0) + bitmap_pts_from(x, y, bm, w, h, j + 1)
    }
}

/// The destination points of a whole bitmap blit.
pub open spec fn bitmap_pts(x: int, y: int, bm: Seq<u8>, w: int, h: int) -> Seq<(int, int)> {
    bitmap_pts_from(x, y, bm, w, h, 0)
}

/// The byte of an in-range source pixel lies inside a bitmap of
/// `w * ((h + 7) / 8)` bytes.
pub proof fn lemma_bitmap_index(w: int, h: int, i: int, j: int)
    requires
        0 <= i < w,
        0 <= j < h,
    ensures
        0 <= i + (j / 8) * w < w * ((h + 7) / 8),
{
    let q = (h + 7) / 8;
    vstd::arithmetic::div_mod::lemma_fundamental_div_mod(h + 7, 8);
    assert(h <= 8 * q);
    vstd::arithmetic::div_mod::lemma_div_pos_is_pos(j, 8);
    vstd::arithmetic::mul::lemma_mul_nonnegative(j / 8, w);
    vstd::arithmetic::div_mod::lemma_multiply_divide_lt(j, 8, q);
    vstd::arithmetic::mul::lemma_mul_inequality(j / 8, q - 1, w);
    assert((q - 1) * w == q * w - w) by {
        vstd::arithmetic::mul::lemma_mul_is_distributive_sub_other_way(w, q, 1);
    }
    vstd::arithmetic::mul::lemma_mul_is_commutative(q, w);
}

/// A one-by-one filled rectangle is a single point.
pub proof fn lemma_unit_rect(x: int, y: int)
    ensures
        fill_rect_pts(x, y, 1, 1) == seq![(x, y)],
{
    assert(fill_rect_pts(x + 1, y, 0, 1) =~= Seq::<(int, int)>::empty());
    assert(vline_pts(x, y, 1) == line_pts(x, y, x, y));
    assert(line_pts(x, y, x, y) == bres_pts(x, x, y, 0, 0, 0, -1, false));
    assert(bres_pts(x + 1, x, y, 0, 0, 0, -1, false) =~= Seq::<(int, int)>::empty());
    assert(bres_pts(x, x, y, 0, 0, 0, -1, false) =~= seq![(x, y)]);
    assert(fill_rect_pts(x, y, 1, 1) =~= seq![(x, y)]);
}

/// The items one glyph cell paints: a foreground block for a set font bit,
/// a background block for a clear bit when the background differs, nothing
/// otherwise.
pub open spec fn glyph_cell_items(
    x: int,
    y: int,
    code: int,
    size: int,
    i: int,
    j: int,
    con: bool,
    bon: bool,
    draw_bg: bool,
) -> Seq<(int, int, bool)> {
    if font_bit(code, i, j) {
        with_on(fill_rect_pts(x + i * size, y + j * size, size, size), con)
    } else if draw_bg {
        with_on(fill_rect_pts(x + i * size, y + j * size, size, size), bon)
    } else {
        Seq::empty()
    }
}

/// The items of one glyph column from row `j` on.
pub open spec fn glyph_col_items(
    x: int,
    y: int,
    code: int,
    size: int,
    i: int,
    j: int,
    con: bool,
    bon: bool,
    draw_bg: bool,
) -> Seq<(int, int, bool)>
    decreases 8 - j,
{
    if j >= 8 {
        Seq::empty()
    } else {
        glyph_cell_items(x, y, code, size, i, j, con, bon, draw_bg) + glyph_col_items(
            x,
            y,
            code,
            size,
            i,
            j + 1,
            con,
            bon,
            draw_bg,
        )
    }
}

/// The items of a glyph from column `i` on: five data columns and one
/// blank spacing column.
pub open spec fn glyph_items_from(
    x: int,
    y: int,
    code: int,
    size: int,
    i: int,
    con: bool,
    bon: bool,
    draw_bg: bool,
) -> Seq<(int, int, bool)>
    decreases 6 - i,
{
    if i >= 6 {
        Seq::empty()
    } else {
        glyph_col_items(x, y, code, size, i, 0, con, bon, draw_bg) + glyph_items_from(
            x,
            y,
            code,
            size,
            i + 1,
            con,
            bon,
            draw_bg,
        )
    }
}

/// The items a whole glyph paints.
pub open spec fn glyph_items(
    x: int,
    y: int,
    code: int,
    size: int,
    con: bool,
    bon: bool,
    draw_bg: bool,
) -> Seq<(int, int, bool)> {
    glyph_items_from(x, y, code, size, 0, con, bon, draw_bg)
}

/// A glyph whose bounding box lies entirely off the surface is skipped
/// before any pixel work.
pub open spec fn glyph_skipped(g: Geom, x: int, y: int, size: int) -> bool {
    x >= g.w || y >= g.h || x + 5 * size - 1 < 0 || y + 8 * size - 1 < 0
}

/// The buffer after drawing one glyph cell grid at (x, y).
pub open spec fn char_paint(
    g: Geom,
    buf: Seq<u8>,
    x: int,
    y: int,
    code: int,
    size: int,
    con: bool,
    bon: bool,
    draw_bg: bool,
) -> Seq<u8> {
    if glyph_skipped(g, x, y, size) {
        buf
    } else {
        paint_items(g, buf, glyph_items(x, y, code, size, con, bon, draw_bg))
    }
}

/// The low byte of a character's code point: the glyph index the font
/// table is consulted with.
pub open spec fn char_code(c: char) -> int {
    (c as u32) as int % 256
}

/// The text-relevant part of a surface's state: cursor, text size, logical
/// width and wrap flag.
pub ghost struct TextState {
    pub cx: int,
    pub cy: int,
    pub ts: int,
    pub w: int,
    pub wrap: bool,
}

/// The cursor arithmetic of writing one character stays inside 16-bit
/// coordinates.
pub open spec fn wc_fits(t: TextState, c: char) -> bool {
    if c == '\n' {
        t.cy + 8 * t.ts <= 0x7fff
    } else if c == '\r' {
        true
    } else {
        t.cx + 6 * t.ts <= 0x7fff && ((t.wrap && t.cx + 6 * t.ts > t.w - 6 * t.ts) ==> t.cy + 8
            * t.ts <= 0x7fff)
    }
}

/// The text state after writing one character: newline advances the row
/// and returns the column home, carriage return only returns home, any
/// other character advances the column one cell, wrapping to the next row
/// when enabled and past the right edge.
pub open spec fn wc_next(t: TextState, c: char) -> TextState {
    if c == '\n' {
        TextState { cx: 0, cy: t.cy + 8 * t.ts, ..t }
    } else if c == '\r' {
        TextState { cx: 0, ..t }
    } else {
        let nx = t.cx + 6 * t.ts;
        if t.wrap && nx > t.w - 6 * t.ts {
            TextState { cx: 0, cy: t.cy + 8 * t.ts, ..t }
        } else {
            TextState { cx: nx, ..t }
        }
    }
}

/// The buffer after writing one character at the cursor: control
/// characters paint nothing.
pub open spec fn wc_paint(
    g: Geom,
    buf: Seq<u8>,
    t: TextState,
    c: char,
    con: bool,
    bon: bool,
    draw_bg: bool,
) -> Seq<u8> {
    if c == '\n' || c == '\r' {
        buf
    } else {
        char_paint(g, buf, t.cx, t.cy, char_code(c), t.ts, con, bon, draw_bg)
    }
}

/// Every character of a string keeps the cursor arithmetic in range.
pub open spec fn ws_fits(t: TextState, s: Seq<char>) -> bool
    decreases s.len(),
{
    s.len() == 0 || (wc_fits(t, s[0]) && ws_fits(wc_next(t, s[0]), s.drop_first()))
}

/// The text state after writing a whole string, character by character.
pub open spec fn ws_next(t: TextState, s: Seq<char>) -> TextState
    decreases s.len(),
{
    if s.len() == 0 {
        t
    } else {
        ws_next(wc_next(t, s[0]), s.drop_first())
    }
}

/// The buffer after writing a whole string, character by character.
pub open spec fn ws_paint(
    g: Geom,
    buf: Seq<u8>,
    t: TextState,
    s: Seq<char>,
    con: bool,
    bon: bool,
    draw_bg: bool,
) -> Seq<u8>
    decreases s.len(),
{
    if s.len() == 0 {
        buf
    } else {
        ws_paint(
            g,
            wc_paint(g, buf, t, s[0], con, bon, draw_bg),
            wc_next(t, s[0]),
            s.drop_first(),
            con,
            bon,
            draw_bg,
        )
    }
}

/// A filled triangle: vertices sorted by ascending y with three
/// compare-and-swaps; a perfectly flat triangle is one horizontal line over
/// the x extent; otherwise the upper and lower regions are scanline-filled,
/// split at the middle vertex.
pub open spec fn fill_triangle_pts(
    x0: int,
    y0: int,
    x1: int,
    y1: int,
    x2: int,
    y2: int,
) -> Seq<(int, int)> {
    let (sx0, sy0, sx1, sy1) = if y0 > y1 {
        (x1, y1, x0, y0)
    } else {
        (x0, y0, x1, y1)
    };
    let (tx1, ty1, tx2, ty2) = if sy1 > y2 {
        (x2, y2, sx1, sy1)
    } else {
        (sx1, sy1, x2, y2)
    };
    let (ux0, uy0, ux1, uy1) = if sy0 > ty1 {
        (tx1, ty1, sx0, sy0)
    } else {
        (sx0, sy0, tx1, ty1)
    };
    if uy0 == ty2 {
        let a1 = if ux1 < ux0 {
            ux1
        } else {
            ux0
        };
        let b1 = if ux1 < ux0 {
            ux0
        } else if ux1 > ux0 {
            ux1
        } else {
            ux0
        };
        let a2 = if tx2 < a1 {
            tx2
        } else {
            a1
        };
        let b2 = if tx2 < a1 {
            b1
        } else if tx2 > b1 {
            tx2
        } else {
            b1
        };
        hline_pts(a2, uy0, b2 - a2 + 1)
    } else {
        let dx01 = ux1 - ux0;
        let dy01 = uy1 - uy0;
        let dx02 = tx2 - ux0;
        let dy02 = ty2 - uy0;
        let dx12 = tx2 - ux1;
        let dy12 = ty2 - uy1;
        let last = if uy1 == ty2 {
            uy1
        } else {
            uy1 - 1
        };
        tri_scan_pts(uy0, last, ux0, dy01, dx01, 0, ux0, dy02, dx02, 0) + tri_scan_pts(
            last + 1,
            ty2,
            ux1,
            dy12,
            dx12,
            dx12 * (last + 1 - uy1),
            ux0,
            dy02,
            dx02,
            dx02 * (last + 1 - uy0),
        )
    }
}

} // verus!
