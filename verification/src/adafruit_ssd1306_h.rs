//! The interface a concrete display transport implements: it owns a
//! drawing surface and pushes its buffer to the hardware.  The transport
//! itself talks to a bus, so nothing here carries a contract; the verified
//! engine only fills the buffer the transport sends.

use vstd::prelude::*;
use crate::adafruit_gfx_h::AdafruitGFX;

verus! {

pub const SSD1306_EXTERNALVCC: u8 = 0x0;

pub const SSD1306_SWITCHCAPVCC: u8 = 0x1;

/// The base interface for a display driver over some bus: a new transport
/// interface type implements this for its bus and delay types.
pub trait Display<I2C, GPIO, DELAY>: Sized {
    /// Build the driver from its bus, reset pin, delay source and surface.
    fn new(ni2c: I2C, n_rst: GPIO, delay: DELAY, ngfx: AdafruitGFX) -> Self;

    /// Run the controller's initialization sequence.
    fn begin(&mut self, vccstate: u8);

    /// Clear the local buffer.
    fn clear_display(&mut self);

    /// Invert the panel's display of the buffer.
    fn invert_display(&mut self, i: bool);

    /// Push the buffer to the panel.
    fn show(&mut self);

    /// Load the splash image into the buffer.
    fn splash(&mut self);

    /// Send the whole buffer over the bus.
    fn send_display_buffer(&mut self);

    /// Send one command byte.
    fn command(&mut self, c: u8);

    /// Send one data byte.
    fn data(&mut self, c: u8);

    /// Copy a packed logo bitmap into the buffer.
    fn copy_adafruit_logo(&mut self, ada_fruit_logo: &[u8], raw_height: i16);

    /// Start the scroll configured in the scroll registers.
    fn activate_scroll(&mut self);

    /// Stop scrolling.
    fn deactivate_scroll(&mut self);

    /// Program a rightward horizontal scroll.
    fn scroll_horizontal_r(&mut self);

    /// Program a leftward horizontal scroll.
    fn scroll_horizontal_l(&mut self);

    /// Program a rightward diagonal scroll.
    fn scroll_diagnol_r(&mut self);

    /// Program a leftward diagonal scroll.
    fn scroll_diagnol_l(&mut self);

    /// Program an upward vertical scroll.
    fn scroll_vertical_u(&mut self);
}

} // verus!
