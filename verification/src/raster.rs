//! The mathematical model of the display surface: geometry, rotation
//! remapping, the packed bit-plane buffer, and the painting of point
//! sequences, together with the lemmas the drawing operations rely on.

use vstd::prelude::*;

verus! {

/// Display geometry: physical (raw) size, rotation in quarter turns, and the
/// logical size seen by drawing callers.
pub ghost struct Geom {
    pub rw: int,
    pub rh: int,
    pub rot: int,
    pub w: int,
    pub h: int,
}

/// A well-formed geometry: the raw height is a whole number of 8-pixel bytes
/// and the logical size is the raw size, swapped for odd rotations.
pub open spec fn geom_wf(g: Geom) -> bool {
    &&& 0 <= g.rw
    &&& 0 <= g.rh
    &&& g.rh % 8 == 0
    &&& 0 <= g.rot < 4
    &&& (if g.rot == 0 || g.rot == 2 {
        g.w == g.rw && g.h == g.rh
    } else {
        g.w == g.rh && g.h == g.rw
    })
}

/// Length of the packed buffer: one bit per raw pixel.
pub open spec fn buf_len(g: Geom) -> int {
    g.rw * g.rh / 8
}

/// Is (x, y) inside the logical (rotation-applied) bounds?
pub open spec fn log_in(g: Geom, x: int, y: int) -> bool {
    0 <= x < g.w && 0 <= y < g.h
}

/// Is (i, j) inside the raw (physical) bounds?
pub open spec fn raw_in(g: Geom, i: int, j: int) -> bool {
    0 <= i < g.rw && 0 <= j < g.rh
}

/// Raw column of the logical point (x, y) under the current rotation.
pub open spec fn remap_x(g: Geom, x: int, y: int) -> int {
    if g.rot == 0 {
        x
    } else if g.rot == 1 {
        g.rw - y - 1
    } else if g.rot == 2 {
        g.rw - x - 1
    } else {
        y
    }
}

/// Raw row of the logical point (x, y) under the current rotation.
pub open spec fn remap_y(g: Geom, x: int, y: int) -> int {
    if g.rot == 0 {
        y
    } else if g.rot == 1 {
        x
    } else if g.rot == 2 {
        g.rh - y - 1
    } else {
        g.rh - x - 1
    }
}

/// Byte holding the raw pixel (i, j): bit-plane packing, 8 vertically
/// adjacent pixels per byte.
pub open spec fn byte_index(g: Geom, i: int, j: int) -> int {
    i + (j / 8) * g.rw
}

/// The mask selecting raw row j's bit within its byte.
pub open spec fn bit_mask(j: int) -> u8 {
    1u8 << ((j % 8) as u8)
}

/// The raw pixel (i, j) of a packed buffer.
pub open spec fn raw_bit(g: Geom, buf: Seq<u8>, i: int, j: int) -> bool {
    buf[byte_index(g, i, j)] & bit_mask(j) != 0
}

/// The buffer with the raw pixel (i, j) set or cleared.
pub open spec fn set_raw_bit(g: Geom, buf: Seq<u8>, i: int, j: int, on: bool) -> Seq<u8> {
    let k = byte_index(g, i, j);
    if on {
        buf.update(k, buf[k] | bit_mask(j))
    } else {
        buf.update(k, buf[k] & !bit_mask(j))
    }
}

/// The buffer after writing the logical pixel (x, y): out-of-range
/// coordinates are clipped and leave the buffer unchanged.
pub open spec fn put_pixel(g: Geom, buf: Seq<u8>, x: int, y: int, on: bool) -> Seq<u8> {
    if log_in(g, x, y) {
        set_raw_bit(g, buf, remap_x(g, x, y), remap_y(g, x, y), on)
    } else {
        buf
    }
}

/// The buffer after writing every point of `pts`, in order, in one color.
pub open spec fn paint(g: Geom, buf: Seq<u8>, pts: Seq<(int, int)>, on: bool) -> Seq<u8>
    decreases pts.len(),
{
    if pts.len() == 0 {
        buf
    } else {
        paint(g, put_pixel(g, buf, pts[0].0, pts[0].1, on), pts.drop_first(), on)
    }
}

/// The buffer after writing every point of `items`, in order, each with its
/// own color.
pub open spec fn paint_items(g: Geom, buf: Seq<u8>, items: Seq<(int, int, bool)>) -> Seq<u8>
    decreases items.len(),
{
    if items.len() == 0 {
        buf
    } else {
        paint_items(g, put_pixel(g, buf, items[0].0, items[0].1, items[0].2), items.drop_first())
    }
}

/// A point sequence paired with one color for every point.
pub open spec fn with_on(pts: Seq<(int, int)>, on: bool) -> Seq<(int, int, bool)> {
    pts.map_values(|p: (int, int)| (p.0, p.1, on))
}

pub proof fn lemma_u8_bit_set(b: u8, k: u8)
    requires
        k < 8,
    ensures
        (b | (1u8 << k)) & (1u8 << k) != 0,
{
    assert((b | (1u8 << k)) & (1u8 << k) != 0) by (bit_vector)
        requires
            k < 8,
    ;
}

pub proof fn lemma_u8_bit_clear(b: u8, k: u8)
    requires
        k < 8,
    ensures
        (b & !(1u8 << k)) & (1u8 << k) == 0,
{
    assert((b & !(1u8 << k)) & (1u8 << k) == 0) by (bit_vector)
        requires
            k < 8,
    ;
}

pub proof fn lemma_u8_bit_or_other(b: u8, k: u8, k2: u8)
    requires
        k < 8,
        k2 < 8,
        k != k2,
    ensures
        ((b | (1u8 << k)) & (1u8 << k2) != 0) == (b & (1u8 << k2) != 0),
{
    assert(((b | (1u8 << k)) & (1u8 << k2) != 0) == (b & (1u8 << k2) != 0)) by (bit_vector)
        requires
            k < 8,
            k2 < 8,
            k != k2,
    ;
}

pub proof fn lemma_u8_bit_and_other(b: u8, k: u8, k2: u8)
    requires
        k < 8,
        k2 < 8,
        k != k2,
    ensures
        ((b & !(1u8 << k)) & (1u8 << k2) != 0) == (b & (1u8 << k2) != 0),
{
    assert(((b & !(1u8 << k)) & (1u8 << k2) != 0) == (b & (1u8 << k2) != 0)) by (bit_vector)
        requires
            k < 8,
            k2 < 8,
            k != k2,
    ;
}

/// Two bytes with the same 8 bits are equal.
pub proof fn lemma_u8_from_bits(b1: u8, b2: u8)
    requires
        forall|k: u8| k < 8 ==> ((b1 & (1u8 << k) != 0) == (b2 & (1u8 << k) != 0)),
    ensures
        b1 == b2,
{
    assert((b1 & (1u8 << 0u8) != 0) == (b2 & (1u8 << 0u8) != 0));
    assert((b1 & (1u8 << 1u8) != 0) == (b2 & (1u8 << 1u8) != 0));
    assert((b1 & (1u8 << 2u8) != 0) == (b2 & (1u8 << 2u8) != 0));
    assert((b1 & (1u8 << 3u8) != 0) == (b2 & (1u8 << 3u8) != 0));
    assert((b1 & (1u8 << 4u8) != 0) == (b2 & (1u8 << 4u8) != 0));
    assert((b1 & (1u8 << 5u8) != 0) == (b2 & (1u8 << 5u8) != 0));
    assert((b1 & (1u8 << 6u8) != 0) == (b2 & (1u8 << 6u8) != 0));
    assert((b1 & (1u8 << 7u8) != 0) == (b2 & (1u8 << 7u8) != 0));
    assert(b1 == b2) by (bit_vector)
        requires
            (b1 & (1u8 << 0u8) != 0) == (b2 & (1u8 << 0u8) != 0),
            (b1 & (1u8 << 1u8) != 0) == (b2 & (1u8 << 1u8) != 0),
            (b1 & (1u8 << 2u8) != 0) == (b2 & (1u8 << 2u8) != 0),
            (b1 & (1u8 << 3u8) != 0) == (b2 & (1u8 << 3u8) != 0),
            (b1 & (1u8 << 4u8) != 0) == (b2 & (1u8 << 4u8) != 0),
            (b1 & (1u8 << 5u8) != 0) == (b2 & (1u8 << 5u8) != 0),
            (b1 & (1u8 << 6u8) != 0) == (b2 & (1u8 << 6u8) != 0),
            (b1 & (1u8 << 7u8) != 0) == (b2 & (1u8 << 7u8) != 0),
    ;
}

/// In-bounds logical points remap to in-bounds raw points.
pub proof fn lemma_remap_raw_in(g: Geom, x: int, y: int)
    requires
        geom_wf(g),
        log_in(g, x, y),
    ensures
        raw_in(g, remap_x(g, x, y), remap_y(g, x, y)),
{
}

/// The byte of an in-bounds raw pixel lies inside the buffer.
pub proof fn lemma_byte_index_in(g: Geom, i: int, j: int)
    requires
        geom_wf(g),
        raw_in(g, i, j),
    ensures
        0 <= byte_index(g, i, j) < buf_len(g),
        buf_len(g) == g.rw * (g.rh / 8),
{
    let q = g.rh / 8;
    vstd::arithmetic::div_mod::lemma_fundamental_div_mod(g.rh, 8);
    assert(g.rh == 8 * q);
    assert(g.rw * g.rh == 8 * (g.rw * q)) by {
        vstd::arithmetic::mul::lemma_mul_is_associative(g.rw, 8, q);
        vstd::arithmetic::mul::lemma_mul_is_commutative(g.rw, 8);
        vstd::arithmetic::mul::lemma_mul_is_associative(8, g.rw, q);
    }
    vstd::arithmetic::div_mod::lemma_div_multiples_vanish(g.rw * q, 8);
    assert(buf_len(g) == g.rw * q);
    vstd::arithmetic::div_mod::lemma_div_pos_is_pos(j, 8);
    vstd::arithmetic::mul::lemma_mul_nonnegative(j / 8, g.rw);
    assert(j < 8 * q);
    vstd::arithmetic::div_mod::lemma_multiply_divide_lt(j, 8, q);
    assert(j / 8 <= q - 1);
    vstd::arithmetic::mul::lemma_mul_inequality(j / 8, q - 1, g.rw);
    assert((q - 1) * g.rw == q * g.rw - g.rw) by {
        vstd::arithmetic::mul::lemma_mul_is_distributive_sub_other_way(g.rw, q, 1);
    }
    vstd::arithmetic::mul::lemma_mul_is_commutative(q, g.rw);
}

/// Two in-bounds raw pixels in the same byte share the column and the row
/// group.
pub proof fn lemma_byte_index_inj(g: Geom, i: int, j: int, i2: int, j2: int)
    requires
        geom_wf(g),
        raw_in(g, i, j),
        raw_in(g, i2, j2),
        byte_index(g, i, j) == byte_index(g, i2, j2),
    ensures
        i == i2,
        j / 8 == j2 / 8,
{
    let d = j / 8 - j2 / 8;
    assert(d * g.rw == i2 - i) by {
        vstd::arithmetic::mul::lemma_mul_is_distributive_sub_other_way(g.rw, j / 8, j2 / 8);
    }
    if d >= 1 {
        vstd::arithmetic::mul::lemma_mul_inequality(1, d, g.rw);
        assert(false);
    }
    if d <= -1 {
        vstd::arithmetic::mul::lemma_mul_inequality(d, -1, g.rw);
        assert(false);
    }
}

/// Setting or clearing one raw pixel changes that pixel to the given color
/// and leaves every other raw pixel unchanged.
pub proof fn lemma_set_raw_bit(g: Geom, buf: Seq<u8>, i: int, j: int, on: bool)
    requires
        geom_wf(g),
        buf.len() == buf_len(g),
        raw_in(g, i, j),
    ensures
        set_raw_bit(g, buf, i, j, on).len() == buf.len(),
        raw_bit(g, set_raw_bit(g, buf, i, j, on), i, j) == on,
        forall|i2: int, j2: int|
            raw_in(g, i2, j2) && !(i2 == i && j2 == j) ==> raw_bit(g, set_raw_bit(g, buf, i, j, on), i2, j2)
                == raw_bit(g, buf, i2, j2),
{
    let buf2 = set_raw_bit(g, buf, i, j, on);
    let k = byte_index(g, i, j);
    lemma_byte_index_in(g, i, j);
    vstd::arithmetic::div_mod::lemma_mod_division_less_than_divisor(j, 8);
    vstd::arithmetic::div_mod::lemma_remainder_lower(j, 8);
    if on {
        lemma_u8_bit_set(buf[k], (j % 8) as u8);
    } else {
        lemma_u8_bit_clear(buf[k], (j % 8) as u8);
    }
    assert forall|i2: int, j2: int|
        raw_in(g, i2, j2) && !(i2 == i && j2 == j) implies raw_bit(g, buf2, i2, j2) == raw_bit(
        g,
        buf,
        i2,
        j2,
    ) by {
        let k2 = byte_index(g, i2, j2);
        lemma_byte_index_in(g, i2, j2);
        if k2 == k {
            lemma_byte_index_inj(g, i, j, i2, j2);
            assert(j2 != j);
            vstd::arithmetic::div_mod::lemma_fundamental_div_mod(j, 8);
            vstd::arithmetic::div_mod::lemma_fundamental_div_mod(j2, 8);
            assert(j % 8 != j2 % 8);
            vstd::arithmetic::div_mod::lemma_mod_division_less_than_divisor(j2, 8);
            vstd::arithmetic::div_mod::lemma_remainder_lower(j2, 8);
            if on {
                lemma_u8_bit_or_other(buf[k], (j % 8) as u8, (j2 % 8) as u8);
            } else {
                lemma_u8_bit_and_other(buf[k], (j % 8) as u8, (j2 % 8) as u8);
            }
        }
    }
}

/// Writing one logical pixel: the remapped raw pixel takes the color, all
/// other raw pixels keep theirs, and out-of-range writes change nothing.
pub proof fn lemma_put_pixel(g: Geom, buf: Seq<u8>, x: int, y: int, on: bool)
    requires
        geom_wf(g),
        buf.len() == buf_len(g),
    ensures
        put_pixel(g, buf, x, y, on).len() == buf.len(),
        !log_in(g, x, y) ==> put_pixel(g, buf, x, y, on) == buf,
        log_in(g, x, y) ==> raw_bit(g, put_pixel(g, buf, x, y, on), remap_x(g, x, y), remap_y(g, x, y))
            == on,
        log_in(g, x, y) ==> forall|i2: int, j2: int|
            raw_in(g, i2, j2) && !(i2 == remap_x(g, x, y) && j2 == remap_y(g, x, y)) ==> raw_bit(
                g,
                put_pixel(g, buf, x, y, on),
                i2,
                j2,
            ) == raw_bit(g, buf, i2, j2),
{
    if log_in(g, x, y) {
        lemma_remap_raw_in(g, x, y);
        lemma_set_raw_bit(g, buf, remap_x(g, x, y), remap_y(g, x, y), on);
    }
}

/// Painting preserves the buffer length.
pub proof fn lemma_paint_len(g: Geom, buf: Seq<u8>, pts: Seq<(int, int)>, on: bool)
    requires
        geom_wf(g),
        buf.len() == buf_len(g),
    ensures
        paint(g, buf, pts, on).len() == buf.len(),
    decreases pts.len(),
{
    if pts.len() != 0 {
        let buf1 = put_pixel(g, buf, pts[0].0, pts[0].1, on);
        lemma_put_pixel(g, buf, pts[0].0, pts[0].1, on);
        lemma_paint_len(g, buf1, pts.drop_first(), on);
        assert(paint(g, buf, pts, on) == paint(g, buf1, pts.drop_first(), on));
    }
}

/// Painting a concatenation paints the two halves in order.
pub proof fn lemma_paint_concat(g: Geom, buf: Seq<u8>, s1: Seq<(int, int)>, s2: Seq<(int, int)>, on: bool)
    ensures
        paint(g, buf, s1 + s2, on) == paint(g, paint(g, buf, s1, on), s2, on),
    decreases s1.len(),
{
    if s1.len() == 0 {
        assert(s1 + s2 =~= s2);
    } else {
        let buf1 = put_pixel(g, buf, s1[0].0, s1[0].1, on);
        assert((s1 + s2)[0] == s1[0]);
        assert((s1 + s2).drop_first() =~= s1.drop_first() + s2);
        lemma_paint_concat(g, buf1, s1.drop_first(), s2, on);
    }
}

/// Painting a concatenation of item sequences paints the two halves in
/// order.
pub proof fn lemma_paint_items_concat(
    g: Geom,
    buf: Seq<u8>,
    s1: Seq<(int, int, bool)>,
    s2: Seq<(int, int, bool)>,
)
    ensures
        paint_items(g, buf, s1 + s2) == paint_items(g, paint_items(g, buf, s1), s2),
    decreases s1.len(),
{
    if s1.len() == 0 {
        assert(s1 + s2 =~= s2);
    } else {
        let buf1 = put_pixel(g, buf, s1[0].0, s1[0].1, s1[0].2);
        assert((s1 + s2)[0] == s1[0]);
        assert((s1 + s2).drop_first() =~= s1.drop_first() + s2);
        lemma_paint_items_concat(g, buf1, s1.drop_first(), s2);
    }
}

/// The logical pixel (x, y): the raw bit its remapped position holds.
pub open spec fn pixel_at(g: Geom, buf: Seq<u8>, x: int, y: int) -> bool {
    raw_bit(g, buf, remap_x(g, x, y), remap_y(g, x, y))
}

/// Does some in-range point of `pts` remap to the raw position (i, j)?
pub open spec fn covers(g: Geom, pts: Seq<(int, int)>, i: int, j: int) -> bool {
    exists|k: int|
        0 <= k < pts.len() && log_in(g, pts[k].0, pts[k].1) && remap_x(g, pts[k].0, pts[k].1) == i
            && remap_y(g, pts[k].0, pts[k].1) == j
}

/// What painting does to every raw pixel: covered positions take the
/// color, all others are untouched.
pub proof fn lemma_paint_bits(g: Geom, buf: Seq<u8>, pts: Seq<(int, int)>, on: bool)
    requires
        geom_wf(g),
        buf.len() == buf_len(g),
    ensures
        forall|i: int, j: int|
            raw_in(g, i, j) ==> raw_bit(g, paint(g, buf, pts, on), i, j) == (if covers(g, pts, i, j) {
                on
            } else {
                raw_bit(g, buf, i, j)
            }),
    decreases pts.len(),
{
    if pts.len() != 0 {
        let p = pts[0];
        let buf1 = put_pixel(g, buf, p.0, p.1, on);
        let rest = pts.drop_first();
        lemma_put_pixel(g, buf, p.0, p.1, on);
        lemma_paint_bits(g, buf1, rest, on);
        assert forall|i: int, j: int|
            raw_in(g, i, j) implies raw_bit(g, paint(g, buf, pts, on), i, j) == (if covers(
            g,
            pts,
            i,
            j,
        ) {
            on
        } else {
            raw_bit(g, buf, i, j)
        }) by {
            assert(paint(g, buf, pts, on) == paint(g, buf1, rest, on));
            if covers(g, rest, i, j) {
                let k = choose|k: int|
                    0 <= k < rest.len() && log_in(g, rest[k].0, rest[k].1) && remap_x(
                        g,
                        rest[k].0,
                        rest[k].1,
                    ) == i && remap_y(g, rest[k].0, rest[k].1) == j;
                assert(pts[k + 1] == rest[k]);
                assert(covers(g, pts, i, j));
            } else {
                if log_in(g, p.0, p.1) && remap_x(g, p.0, p.1) == i && remap_y(g, p.0, p.1) == j {
                    assert(raw_bit(g, buf1, i, j) == on);
                    assert(covers(g, pts, i, j));
                } else {
                    assert(raw_bit(g, buf1, i, j) == raw_bit(g, buf, i, j));
                    if covers(g, pts, i, j) {
                        let k = choose|k: int|
                            0 <= k < pts.len() && log_in(g, pts[k].0, pts[k].1) && remap_x(
                                g,
                                pts[k].0,
                                pts[k].1,
                            ) == i && remap_y(g, pts[k].0, pts[k].1) == j;
                        assert(k != 0);
                        assert(rest[k - 1] == pts[k]);
                        assert(covers(g, rest, i, j));
                    }
                }
            }
        }
    }
}

/// Two buffers of the right length that agree on every raw pixel are the
/// same byte sequence.
pub proof fn lemma_buf_from_raw_bits(g: Geom, b1: Seq<u8>, b2: Seq<u8>)
    requires
        geom_wf(g),
        b1.len() == buf_len(g),
        b2.len() == buf_len(g),
        forall|i: int, j: int| raw_in(g, i, j) ==> raw_bit(g, b1, i, j) == raw_bit(g, b2, i, j),
    ensures
        b1 == b2,
{
    if g.rw <= 0 || g.rh <= 0 {
        assert(g.rw * g.rh == 0) by (nonlinear_arith)
            requires
                g.rw == 0 || g.rh == 0,
        ;
        assert(b1 =~= b2);
    } else {
        let q = g.rh / 8;
        vstd::arithmetic::div_mod::lemma_fundamental_div_mod(g.rh, 8);
        assert(g.rh == 8 * q);
        assert(g.rw * g.rh == 8 * (g.rw * q)) by {
            vstd::arithmetic::mul::lemma_mul_is_associative(g.rw, 8, q);
            vstd::arithmetic::mul::lemma_mul_is_commutative(g.rw, 8);
            vstd::arithmetic::mul::lemma_mul_is_associative(8, g.rw, q);
        }
        vstd::arithmetic::div_mod::lemma_div_multiples_vanish(g.rw * q, 8);
        assert(buf_len(g) == g.rw * q);
        assert forall|k: int| 0 <= k < b1.len() implies b1[k] == b2[k] by {
            let i = k % g.rw;
            let m = k / g.rw;
            vstd::arithmetic::div_mod::lemma_fundamental_div_mod(k, g.rw);
            vstd::arithmetic::div_mod::lemma_mod_division_less_than_divisor(k, g.rw);
            vstd::arithmetic::div_mod::lemma_remainder_lower(k, g.rw);
            vstd::arithmetic::div_mod::lemma_multiply_divide_lt(k, g.rw, q);
            vstd::arithmetic::div_mod::lemma_div_pos_is_pos(k, g.rw);
            assert(0 <= m < q);
            assert forall|bt: u8| bt < 8 implies ((b1[k] & (1u8 << bt) != 0) == (b2[k] & (1u8 << bt)
                != 0)) by {
                let j = 8 * m + bt;
                vstd::arithmetic::div_mod::lemma_fundamental_div_mod_converse(j, 8, m, bt as int);
                assert(j / 8 == m && j % 8 == bt);
                assert(j < 8 * q);
                assert(raw_in(g, i, j));
                assert(byte_index(g, i, j) == i + m * g.rw);
                vstd::arithmetic::mul::lemma_mul_is_commutative(m, g.rw);
                assert(byte_index(g, i, j) == k);
                assert(bit_mask(j) == 1u8 << bt);
                assert(raw_bit(g, b1, i, j) == raw_bit(g, b2, i, j));
            }
            lemma_u8_from_bits(b1[k], b2[k]);
        }
        assert(b1 =~= b2);
    }
}

/// Unfolding one step of painting.
pub proof fn lemma_paint_pop(g: Geom, buf: Seq<u8>, pts: Seq<(int, int)>, on: bool)
    requires
        pts.len() > 0,
    ensures
        paint(g, buf, pts, on) == paint(
            g,
            put_pixel(g, buf, pts[0].0, pts[0].1, on),
            pts.drop_first(),
            on,
        ),
{
}

/// Painting a single-color item sequence is painting its points.
pub proof fn lemma_paint_with_on(g: Geom, buf: Seq<u8>, pts: Seq<(int, int)>, on: bool)
    ensures
        paint_items(g, buf, with_on(pts, on)) == paint(g, buf, pts, on),
    decreases pts.len(),
{
    if pts.len() == 0 {
        assert(with_on(pts, on).len() == 0);
    } else {
        assert(with_on(pts, on)[0] == (pts[0].0, pts[0].1, on));
        assert(with_on(pts, on).drop_first() =~= with_on(pts.drop_first(), on));
        lemma_paint_with_on(g, put_pixel(g, buf, pts[0].0, pts[0].1, on), pts.drop_first(), on);
    }
}

} // verus!
