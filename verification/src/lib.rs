//! Driver for an SSD1306-class 128x64 monochrome display on a two-wire bus.
//!
//! The driver turns a handful of display operations (bring the panel up, paint
//! it dark or lit, draw text) into the controller's protocol of two-byte
//! frames, and hands each frame to a [`Transport`] as one write. What is
//! written, in which order, and what happens when a write fails is stated in
//! the contract of each operation and proved.

pub mod delivery;
pub mod display;
pub mod font;
pub mod protocol;
pub mod transport;

pub use display::SSD1306;
pub use transport::Transport;
