//! The display-surface type, the two-level colors, and the `Drawable`
//! capability interface that every concrete display transport draws through.

use vstd::prelude::*;
use crate::raster::Geom;
use crate::raster::geom_wf;
use crate::raster::buf_len;
use crate::shapes::TextState;

verus! {

pub const BLACK: u8 = 0;

pub const WHITE: u8 = 1;

/// One-byte mask with only `bit` set.
pub fn bv(bit: u8) -> (r: u8)
    requires
        bit < 8,
    ensures
        r == (1u8 << bit),
{
    1 << bit
}

/// A text and graphics element drawing surface.  Drawing operations write
/// into `buffer`; a display driver pushes the buffer to the hardware under
/// application control.
pub struct AdafruitGFX {
    /// Physical display width; never changes after construction.
    pub raw_width: i16,
    /// Physical display height; never changes after construction.
    pub raw_height: i16,
    /// Logical width, dependent on rotation.
    pub width: i16,
    /// Logical height, dependent on rotation.
    pub height: i16,
    pub cursor_x: i16,
    pub cursor_y: i16,
    pub textcolor: u8,
    pub textbgcolor: u8,
    pub textsize: i16,
    pub rotation: u8,
    /// If set, text wraps at the right edge of the display.
    pub wrap: bool,
    /// Packed 1-bit-per-pixel buffer, one byte per 8 vertically adjacent
    /// raw pixels.
    pub buffer: Vec<u8>,
}

impl AdafruitGFX {
    /// The surface's geometry as a mathematical value.
    pub open spec fn geom(&self) -> Geom {
        Geom {
            rw: self.raw_width as int,
            rh: self.raw_height as int,
            rot: self.rotation as int,
            w: self.width as int,
            h: self.height as int,
        }
    }

    /// The geometry fields agree.
    pub open spec fn same_geom(&self, other: &Self) -> bool {
        &&& self.raw_width == other.raw_width
        &&& self.raw_height == other.raw_height
        &&& self.width == other.width
        &&& self.height == other.height
        &&& self.rotation == other.rotation
    }

    /// The text style fields agree.
    pub open spec fn same_text_style(&self, other: &Self) -> bool {
        &&& self.textcolor == other.textcolor
        &&& self.textbgcolor == other.textbgcolor
        &&& self.textsize == other.textsize
        &&& self.wrap == other.wrap
    }

    /// Every field except the pixel buffer agrees.
    pub open spec fn same_config(&self, other: &Self) -> bool {
        &&& self.same_geom(other)
        &&& self.same_text_style(other)
        &&& self.cursor_x == other.cursor_x
        &&& self.cursor_y == other.cursor_y
    }

    /// The text-relevant part of this surface's state.
    pub open spec fn text_state(&self) -> TextState {
        TextState {
            cx: self.cursor_x as int,
            cy: self.cursor_y as int,
            ts: self.textsize as int,
            w: self.width as int,
            wrap: self.wrap,
        }
    }

    /// The state after setting the rotation: quarter turns modulo 4, logical
    /// size recomputed from the raw size, everything else unchanged.
    pub open spec fn with_rotation(self, x: u8) -> Self {
        let rot = x % 4;
        AdafruitGFX {
            rotation: rot,
            width: if rot == 0 || rot == 2 {
                self.raw_width
            } else {
                self.raw_height
            },
            height: if rot == 0 || rot == 2 {
                self.raw_height
            } else {
                self.raw_width
            },
            ..self
        }
    }
}

/// The capability interface for drawable displays.  A concrete transport
/// type owns an `AdafruitGFX` surface and forwards these operations to it.
pub trait Drawable {
    /// The surface invariant: well-formed geometry, a buffer of exactly one
    /// bit per raw pixel, and a positive text size.
    spec fn wf(&self) -> bool;

    /// The cursor arithmetic of writing this character stays in range.
    spec fn char_fits(&self, c: char) -> bool;

    /// The cursor arithmetic of writing this string stays in range.
    spec fn text_fits(&self, s: Seq<char>) -> bool;

    /// Write one character through the stream interface.
    fn putc(&mut self, value: char) -> (r: u8)
        requires
            old(self).wf(),
            old(self).char_fits(value),
        ensures
            final(self).wf(),
    ;

    /// Read one character; this surface has no input, so nothing arrives.
    fn getc(&self) -> i32;

    /// Write a character at the text cursor and advance it.
    fn write_char(&mut self, value: char) -> (r: u8)
        requires
            old(self).wf(),
            old(self).char_fits(value),
        ensures
            final(self).wf(),
    ;

    /// Write a string of characters, left to right.
    fn write_string(&mut self, value: &str)
        requires
            old(self).wf(),
            old(self).text_fits(value@),
        ensures
            final(self).wf(),
    ;

    /// Paint one BLACK or WHITE pixel in the display buffer.
    fn draw_pixel(&mut self, x: i16, y: i16, color: u8)
        requires
            old(self).wf(),
        ensures
            final(self).wf(),
    ;

    /// Draw a horizontal line.
    fn draw_fast_h_line(&mut self, x: i16, y: i16, w: i16, color: u8)
        requires
            old(self).wf(),
        ensures
            final(self).wf(),
    ;

    /// Draw a rectangle outline.
    fn draw_rect(&mut self, x: i16, y: i16, w: i16, h: i16, color: u8)
        requires
            old(self).wf(),
        ensures
            final(self).wf(),
    ;

    /// Fill the entire display.
    fn fill_screen(&mut self, color: u8)
        requires
            old(self).wf(),
        ensures
            final(self).wf(),
    ;

    /// Draw a circle outline.
    fn draw_circle(&mut self, x0: i16, y0: i16, r: i16, color: u8)
        requires
            old(self).wf(),
        ensures
            final(self).wf(),
    ;

    /// Draw the corner arcs selected by a 4-bit mask.
    fn draw_circle_helper(&mut self, x0: i16, y0: i16, r: i16, cornername: u8, color: u8)
        requires
            old(self).wf(),
        ensures
            final(self).wf(),
    ;

    /// Fill a circle.
    fn fill_circle(&mut self, x0: i16, y0: i16, r: i16, color: u8)
        requires
            old(self).wf(),
        ensures
            final(self).wf(),
    ;

    /// Fill the corner quadrants selected by a 2-bit mask, stretched
    /// vertically by `delta`.
    fn fill_circle_helper(&mut self, x0: i16, y0: i16, r: i16, cornername: u8, delta: i16, color: u8)
        requires
            old(self).wf(),
        ensures
            final(self).wf(),
    ;

    /// Draw a triangle outline.
    fn draw_triangle(&mut self, x0: i16, y0: i16, x1: i16, y1: i16, x2: i16, y2: i16, color: u8)
        requires
            old(self).wf(),
        ensures
            final(self).wf(),
    ;

    /// Fill a triangle by scanlines.
    fn fill_triangle(&mut self, x0: i16, y0: i16, x1: i16, y1: i16, x2: i16, y2: i16, color: u8)
        requires
            old(self).wf(),
        ensures
            final(self).wf(),
    ;

    /// Draw a rounded-rectangle outline.
    fn draw_round_rect(&mut self, x0: i16, y0: i16, w: i16, h: i16, radius: i16, color: u8)
        requires
            old(self).wf(),
        ensures
            final(self).wf(),
    ;

    /// Fill a rounded rectangle.
    fn fill_round_rect(&mut self, x0: i16, y0: i16, w: i16, h: i16, radius: i16, color: u8)
        requires
            old(self).wf(),
        ensures
            final(self).wf(),
    ;

    /// Draw a line.
    fn draw_line(&mut self, x0: i16, y0: i16, x1: i16, y1: i16, color: u8)
        requires
            old(self).wf(),
        ensures
            final(self).wf(),
    ;

    /// Draw a vertical line.
    fn draw_fast_v_line(&mut self, x: i16, y: i16, h: i16, color: u8)
        requires
            old(self).wf(),
        ensures
            final(self).wf(),
    ;

    /// Fill a rectangle.
    fn fill_rect(&mut self, x: i16, y: i16, w: i16, h: i16, color: u8)
        requires
            old(self).wf(),
        ensures
            final(self).wf(),
    ;

    /// Blit a packed monochrome bitmap: set source bits are painted in the
    /// given color, clear ones are left untouched.
    fn draw_bitmap(&mut self, x: i16, y: i16, bitmap: &[u8], w: i16, h: i16, color: u8)
        requires
            old(self).wf(),
            w >= 0,
            h >= 0,
            bitmap@.len() >= w as int * ((h as int + 7) / 8),
        ensures
            final(self).wf(),
    ;

    /// Draw one text character at a pixel location.
    fn draw_char(&mut self, x: i16, y: i16, c: u8, color: u8, bg: u8, size: i16)
        requires
            old(self).wf(),
        ensures
            final(self).wf(),
    ;

    /// Get the width of the display in pixels.
    fn get_width(&self) -> i16;

    /// Get the height of the display in pixels.
    fn get_height(&self) -> i16;

    /// Set the text cursor location.
    fn set_text_cursor(&mut self, x: i16, y: i16)
        requires
            old(self).wf(),
        ensures
            final(self).wf(),
    ;

    /// Set the size of the text to be drawn.
    fn set_text_size(&mut self, s: i16)
        requires
            old(self).wf(),
        ensures
            final(self).wf(),
    ;

    /// Set the text foreground and background colors to be the same.
    fn set_text_color(&mut self, c: u8)
        requires
            old(self).wf(),
        ensures
            final(self).wf(),
    ;

    /// Set the text foreground and background colors independently.
    fn set_text_color_independent(&mut self, c: u8, b: u8)
        requires
            old(self).wf(),
        ensures
            final(self).wf(),
    ;

    /// Set text wrapping mode.
    fn set_text_wrap(&mut self, w: bool)
        requires
            old(self).wf(),
        ensures
            final(self).wf(),
    ;

    /// Set the display rotation.
    fn set_rotation(&mut self, r: u8)
        requires
            old(self).wf(),
        ensures
            final(self).wf(),
    ;

    /// Get the current rotation.
    fn get_rotation(&mut self) -> (r: u8)
        requires
            old(self).wf(),
        ensures
            final(self).wf(),
    ;

    /// Exchange two coordinates.
    fn swap(&mut self, a: &mut i16, b: &mut i16)
        ensures
            *final(a) == *old(b),
            *final(b) == *old(a),
    ;
}

} // verus!
