//! Dimensions of the CHIP-8 machine.

use vstd::prelude::*;

verus! {

/// Width of the display, in pixels.
pub const CHIP8_WIDTH: usize = 64;

/// Height of the display, in pixels.
pub const CHIP8_HEIGHT: usize = 32;

} // verus!
