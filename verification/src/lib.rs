//! Driver logic for a far-infrared sensor array of 32 by 24 pixels: the
//! decoding of its calibration block, the acquisition of frames over the
//! bus, the whole-number side of temperature compensation, and the layout
//! of rendered pictures.
//!
//! The library touches no bus and no file. Where a register has to be
//! accessed it says which, and takes what the access gave; temperatures are
//! fractions that the caller computes, with the arithmetic handed in.

use vstd::prelude::*;

pub mod acquisition;
pub mod bits;
pub mod bus;
pub mod compensation;
pub mod eeprom;
pub mod error;
pub mod grid;
pub mod live;
pub mod options;
pub mod pixels;
pub mod render;
pub mod settings;
pub mod storage;
pub mod store;

verus! {

/// Number of pixels in one sensor row.
pub const PIXELS_WIDTH: usize = 32;

/// Number of sensor rows.
pub const PIXELS_HEIGHT: usize = 24;

/// Number of pixels in a full frame.
pub const PIXEL_COUNT: usize = 768;

} // verus!
