//! A monochrome OLED panel driver with a packed framebuffer, a parser for
//! console bitmap fonts, and the rules that pick a font backend by height.
//!
//! The panel is not driven directly: the controller queues the peripheral
//! operations it needs (pin levels, SPI bytes and bursts, delays), and the
//! caller executes them against the hardware in order.

pub mod bcm2835;
pub mod ssd1305;
pub mod psf;
pub mod renderer;
