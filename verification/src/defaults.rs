//! The values settings take until a user changes them.
use vstd::prelude::*;
use crate::types::{TYPE_CHIP_DEC, TYPE_SCREEN_ADAFRUIT};

verus! {

/// In seconds.
pub const DEFAULT_SIGHTING_PERIOD: u32 = 300;
pub const DEFAULT_CHIP_TYPE: &'static str = TYPE_CHIP_DEC;
/// In tenths of a second.
pub const DEFAULT_READ_WINDOW: u8 = 20;
pub const DEFAULT_PLAY_SOUND: bool = true;
pub const DEFAULT_VOICE: &'static str = "emily";
pub const DEFAULT_AUTO_REMOTE: bool = false;
pub const DEFAULT_UPLOAD_INTERVAL: u64 = 5;
pub const DEFAULT_ENABLE_NTFY: bool = false;
pub const DEFAULT_SCREEN_TYPE: &'static str = TYPE_SCREEN_ADAFRUIT;
pub const DEFAULT_BEEP_IGNORE: u8 = 60;

} // verus!
