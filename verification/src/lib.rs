//! Driver, framebuffer and protocol decoder for the LCD-10168 (PCD8544 class)
//! monochrome dot-matrix display controller.
//!
//! The crate has three cooperating parts that share one wire format:
//! the chip driver encodes high-level operations as bit-serial pin events,
//! the canvas keeps a packed framebuffer with pixel and shape drawing, and
//! the decoder reconstructs chip state and video memory from observed pin
//! transitions, mirroring the driver bit for bit.

use vstd::prelude::*;

mod bits;
pub mod canvas;
pub mod chunk;
pub mod codec;
pub mod color;
pub mod commands;
pub mod ioctl;
pub mod lcd;
pub mod pins;
pub mod sim;
pub mod vec2;

verus! {

/// Number of pixel columns of the display.
pub const COLUMNS: usize = 84;

/// Number of 8-pixel pages stacked vertically.
pub const ROWS: usize = 6;

/// Height of the display in pixels.
pub const HEIGHT: usize = 48;

} // verus!
