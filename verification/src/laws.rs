//! The engine's stated laws, each proved from the operations' contracts.

use vstd::prelude::*;
use crate::adafruit_gfx_h::{AdafruitGFX, Drawable};
use crate::raster::{
    buf_len, geom_wf, log_in, pixel_at, put_pixel, raw_bit, raw_in, remap_x, remap_y, Geom,
};
use crate::raster::{
    covers, lemma_buf_from_raw_bits, lemma_paint_bits, lemma_paint_len, lemma_put_pixel, paint,
};
use crate::shapes::{
    circle_arc_pts, circle_pts, fill_rect_pts, fill_triangle_pts, hline_pts, lemma_hline_pts,
    line_pts, octant_pts, wc_next, TextState,
};

verus! {

/// Writing an in-range pixel and reading it back through the raw remap
/// yields the written color, and touches no other raw pixel; writing an
/// out-of-range pixel leaves the buffer unchanged.
pub proof fn lemma_set_pixel_readback(g: Geom, buf: Seq<u8>, x: int, y: int, on: bool)
    requires
        geom_wf(g),
        buf.len() == buf_len(g),
    ensures
        log_in(g, x, y) ==> pixel_at(g, put_pixel(g, buf, x, y, on), x, y) == on,
        log_in(g, x, y) ==> forall|i: int, j: int|
            raw_in(g, i, j) && !(i == remap_x(g, x, y) && j == remap_y(g, x, y)) ==> raw_bit(
                g,
                put_pixel(g, buf, x, y, on),
                i,
                j,
            ) == raw_bit(g, buf, i, j),
        !log_in(g, x, y) ==> put_pixel(g, buf, x, y, on) == buf,
{
    lemma_put_pixel(g, buf, x, y, on);
}

/// A line draws the same pixels whichever way round its endpoints come.
pub proof fn lemma_line_symmetry(x0: int, y0: int, x1: int, y1: int)
    ensures
        line_pts(x0, y0, x1, y1) == line_pts(x1, y1, x0, y0),
{
}

/// A triangle whose three vertices share one row fills exactly the single
/// horizontal run from the leftmost to the rightmost vertex.
pub proof fn lemma_flat_triangle(x0: int, x1: int, x2: int, y: int)
    ensures
        ({
            let lo = vstd::math::min(vstd::math::min(x0, x1), x2);
            let hi = vstd::math::max(vstd::math::max(x0, x1), x2);
            &&& fill_triangle_pts(x0, y, x1, y, x2, y) == hline_pts(lo, y, hi - lo + 1)
            &&& forall|px: int, py: int|
                fill_triangle_pts(x0, y, x1, y, x2, y).contains((px, py)) <==> (py == y && lo <= px
                    <= hi)
        }),
{
    let lo = vstd::math::min(vstd::math::min(x0, x1), x2);
    let hi = vstd::math::max(vstd::math::max(x0, x1), x2);
    assert(fill_triangle_pts(x0, y, x1, y, x2, y) == hline_pts(lo, y, hi - lo + 1));
    lemma_hline_pts(lo, y, hi - lo + 1);
}

/// Setting rotation one quarter turn and then back to zero restores the
/// whole surface: dimensions, state and pixel mapping.
pub proof fn lemma_rotation_toggle(s: AdafruitGFX)
    requires
        s.wf(),
        s.rotation == 0,
    ensures
        s.with_rotation(1).with_rotation(0) == s,
{
}

/// After writing two printable characters and a newline, the cursor sits
/// at the left edge, one text row below where it started, provided no wrap
/// was triggered on the way.
pub proof fn lemma_third_char_position(t: TextState, c1: char, c2: char)
    requires
        t.ts >= 1,
        c1 != '\n' && c1 != '\r',
        c2 != '\n' && c2 != '\r',
        t.wrap ==> t.cx + 12 * t.ts <= t.w - 6 * t.ts,
    ensures
        wc_next(wc_next(wc_next(t, c1), c2), '\n').cx == 0,
        wc_next(wc_next(wc_next(t, c1), c2), '\n').cy == t.cy + 8 * t.ts,
{
}

/// The midpoint-loop points are closed under swapping the offsets from the
/// center and under flipping either offset's sign.
pub proof fn lemma_arc_symmetry(
    cx: int,
    cy: int,
    x: int,
    y: int,
    f: int,
    ddfx: int,
    ddfy: int,
    dx: int,
    dy: int,
)
    ensures
        circle_arc_pts(cx, cy, x, y, f, ddfx, ddfy).contains((cx + dx, cy + dy)) == circle_arc_pts(
            cx,
            cy,
            x,
            y,
            f,
            ddfx,
            ddfy,
        ).contains((cx + dy, cy + dx)),
        circle_arc_pts(cx, cy, x, y, f, ddfx, ddfy).contains((cx + dx, cy + dy)) == circle_arc_pts(
            cx,
            cy,
            x,
            y,
            f,
            ddfx,
            ddfy,
        ).contains((cx - dx, cy + dy)),
        circle_arc_pts(cx, cy, x, y, f, ddfx, ddfy).contains((cx + dx, cy + dy)) == circle_arc_pts(
            cx,
            cy,
            x,
            y,
            f,
            ddfx,
            ddfy,
        ).contains((cx + dx, cy - dy)),
    decreases y + 1 - x,
{
    let arc = circle_arc_pts(cx, cy, x, y, f, ddfx, ddfy);
    if x >= y {
        assert(arc.len() == 0);
    } else {
        let y2 = if f >= 0 {
            y - 1
        } else {
            y
        };
        let ddfy2 = if f >= 0 {
            ddfy + 2
        } else {
            ddfy
        };
        let f2 = if f >= 0 {
            f + ddfy + 2
        } else {
            f
        };
        let x2 = x + 1;
        let oct = octant_pts(cx, cy, x2, y2);
        let tail = circle_arc_pts(cx, cy, x2, y2, f2 + ddfx + 2, ddfx + 2, ddfy2);
        assert(arc == oct + tail);
        lemma_arc_symmetry(cx, cy, x2, y2, f2 + ddfx + 2, ddfx + 2, ddfy2, dx, dy);
        assert forall|px: int, py: int| #[trigger] arc.contains((px, py)) implies oct.contains(
            (px, py),
        ) || tail.contains((px, py)) by {
            let k = choose|k: int| 0 <= k < arc.len() && arc[k] == (px, py);
            if k < 8 {
                assert(oct[k] == (px, py));
            } else {
                assert(tail[k - 8] == (px, py));
            }
        }
        assert forall|px: int, py: int|
            oct.contains((px, py)) || tail.contains((px, py)) implies #[trigger] arc.contains(
            (px, py),
        ) by {
            if oct.contains((px, py)) {
                let k = choose|k: int| 0 <= k < oct.len() && oct[k] == (px, py);
                assert(arc[k] == (px, py));
            } else {
                let k = choose|k: int| 0 <= k < tail.len() && tail[k] == (px, py);
                assert(arc[k + 8] == (px, py));
            }
        }
        assert(oct.contains((cx + dx, cy + dy)) == oct.contains((cx + dy, cy + dx)) && oct.contains(
            (cx + dx, cy + dy),
        ) == oct.contains((cx - dx, cy + dy)) && oct.contains((cx + dx, cy + dy)) == oct.contains(
            (cx + dx, cy - dy),
        )) by {
            assert(oct[0] == (cx + x2, cy + y2));
            assert(oct[1] == (cx - x2, cy + y2));
            assert(oct[2] == (cx + x2, cy - y2));
            assert(oct[3] == (cx - x2, cy - y2));
            assert(oct[4] == (cx + y2, cy + x2));
            assert(oct[5] == (cx - y2, cy + x2));
            assert(oct[6] == (cx + y2, cy - x2));
            assert(oct[7] == (cx - y2, cy - x2));
        }
    }
}

/// The circle outline's pixel set is symmetric under the eight-way
/// reflection about its center: swapping the offsets and flipping either
/// sign maps the set onto itself.
pub proof fn lemma_circle_symmetry(cx: int, cy: int, r: int, dx: int, dy: int)
    ensures
        circle_pts(cx, cy, r).contains((cx + dx, cy + dy)) == circle_pts(cx, cy, r).contains(
            (cx + dy, cy + dx),
        ),
        circle_pts(cx, cy, r).contains((cx + dx, cy + dy)) == circle_pts(cx, cy, r).contains(
            (cx - dx, cy + dy),
        ),
        circle_pts(cx, cy, r).contains((cx + dx, cy + dy)) == circle_pts(cx, cy, r).contains(
            (cx + dx, cy - dy),
        ),
{
    let s = circle_pts(cx, cy, r);
    let axis = seq![(cx, cy + r), (cx, cy - r), (cx + r, cy), (cx - r, cy)];
    let arc = circle_arc_pts(cx, cy, 0, r, 1 - r, 1, -2 * r);
    assert(s == axis + arc);
    lemma_arc_symmetry(cx, cy, 0, r, 1 - r, 1, -2 * r, dx, dy);
    assert forall|px: int, py: int| #[trigger] s.contains((px, py)) implies axis.contains((px, py))
        || arc.contains((px, py)) by {
        let k = choose|k: int| 0 <= k < s.len() && s[k] == (px, py);
        if k < 4 {
            assert(axis[k] == (px, py));
        } else {
            assert(arc[k - 4] == (px, py));
        }
    }
    assert forall|px: int, py: int|
        axis.contains((px, py)) || arc.contains((px, py)) implies #[trigger] s.contains(
        (px, py),
    ) by {
        if axis.contains((px, py)) {
            let k = choose|k: int| 0 <= k < axis.len() && axis[k] == (px, py);
            assert(s[k] == (px, py));
        } else {
            let k = choose|k: int| 0 <= k < arc.len() && arc[k] == (px, py);
            assert(s[k + 4] == (px, py));
        }
    }
    assert(axis.contains((cx + dx, cy + dy)) == axis.contains((cx + dy, cy + dx)) && axis.contains(
        (cx + dx, cy + dy),
    ) == axis.contains((cx - dx, cy + dy)) && axis.contains((cx + dx, cy + dy)) == axis.contains(
        (cx + dx, cy - dy),
    )) by {
        assert(axis[0] == (cx, cy + r));
        assert(axis[1] == (cx, cy - r));
        assert(axis[2] == (cx + r, cy));
        assert(axis[3] == (cx - r, cy));
    }
}

/// Filling a rectangle in WHITE and then filling the same rectangle in
/// BLACK restores the buffer to its pre-draw state, provided the
/// rectangle's pixels were unset before the first fill.
pub proof fn lemma_fill_rect_roundtrip(g: Geom, buf: Seq<u8>, x: int, y: int, w: int, h: int)
    requires
        geom_wf(g),
        buf.len() == buf_len(g),
        forall|i: int, j: int|
            raw_in(g, i, j) && covers(g, fill_rect_pts(x, y, w, h), i, j) ==> !raw_bit(g, buf, i, j),
    ensures
        paint(g, paint(g, buf, fill_rect_pts(x, y, w, h), true), fill_rect_pts(x, y, w, h), false)
            == buf,
{
    let pts = fill_rect_pts(x, y, w, h);
    let mid = paint(g, buf, pts, true);
    let fin = paint(g, mid, pts, false);
    lemma_paint_len(g, buf, pts, true);
    lemma_paint_bits(g, buf, pts, true);
    lemma_paint_len(g, mid, pts, false);
    lemma_paint_bits(g, mid, pts, false);
    assert forall|i: int, j: int| raw_in(g, i, j) implies raw_bit(g, fin, i, j) == raw_bit(
        g,
        buf,
        i,
        j,
    ) by {
        if covers(g, pts, i, j) {
            assert(!raw_bit(g, buf, i, j));
        }
    }
    lemma_buf_from_raw_bits(g, fin, buf);
}

} // verus!
