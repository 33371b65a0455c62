//! A CHIP-8 interpreter core: the machine, its keypad, its 64x32 screen
//! and the text and colour frames drawn from that screen.

pub mod ansi;
pub mod clock;
pub mod emulator;
pub mod error;
pub mod frame;
pub mod keyboard;
pub mod laws;
pub mod machine;
pub mod screen;
pub mod semantics;
pub mod settings;

use vstd::prelude::*;

verus! {

/// The width of the display in pixels.
pub const SCREEN_WIDTH: u8 = 64;

/// The height of the display in pixels.
pub const SCREEN_HEIGHT: u8 = 32;

} // verus!
