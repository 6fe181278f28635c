//! Verified core of a hardware volume mixer daemon: the serial protocol spoken
//! with the microcontroller, the mixer state shown on its display, the
//! connection and retry decisions, and the configuration packet.

use vstd::prelude::*;

pub mod audio;
pub mod config;
pub mod icon;
pub mod keys;
pub mod mixer;
pub mod notify;
pub mod serial;

verus! {

/// Bytes of an application name on the display (the microcontroller expects 20).
pub const MAX_NAME_LEN: usize = 20;

/// Bytes of one display entry: volume, mute flag, then the name.
pub const ENTRY_SIZE: usize = MAX_NAME_LEN + 2;

/// Bytes of a display frame: one header byte and three entries.
pub const FRAME_SIZE: usize = (ENTRY_SIZE * 3) + 1;

} // verus!
