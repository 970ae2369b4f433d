//! How chip numbers are written out, and the kinds of screen.
use vstd::prelude::*;

verus! {

/// Chip numbers as decimal numerals.
pub const TYPE_CHIP_DEC: &'static str = "DEC";
/// Chip numbers as lower-case hexadecimal numerals.
pub const TYPE_CHIP_HEX: &'static str = "HEX";
/// A screen driven through an Adafruit character display board.
pub const TYPE_SCREEN_ADAFRUIT: &'static str = "ADAFRUIT";
/// A screen driven through a PCF8574T I2C backpack.
pub const TYPE_SCREEN_PCF8574T: &'static str = "PCF8574T";

} // verus!
