//! Monochrome framebuffer graphics core.
//!
//! A display surface owns a packed 1-bit-per-pixel buffer together with its
//! geometry (physical size, rotation, logical size) and text state.  Every
//! drawing operation — lines, rectangles, circles, triangles, bitmaps and
//! text — reduces to a single pixel-write primitive that performs rotation
//! remapping and bounds clipping against that buffer.

pub mod adafruit_gfx;
pub mod adafruit_gfx_h;
pub mod adafruit_ssd1306_h;
pub mod laws;
pub mod glcdfont;
pub mod raster;
pub mod shapes;

pub use raster::Geom;
