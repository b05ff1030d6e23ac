use vstd::prelude::*;

verus! {

/// Width of the display, in pixels.
pub const SCREEN_WIDTH: usize = 64;

/// Height of the display, in pixels.
pub const SCREEN_HEIGHT: usize = 32;

/// Number of pixels of the display.
pub const SCREEN_SIZE: usize = 2048;

/// Number of general-purpose registers (V0 to VF).
pub const NUM_REGS: usize = 16;

/// Number of keys of the hex keypad.
pub const NUM_KEYS: usize = 16;

/// Size of the addressable memory, in bytes.
pub const RAM_SIZE: usize = 4096;

/// Number of return addresses the call stack can hold.
pub const STACK_SIZE: usize = 16;

/// Address at which programs are loaded and execution starts.
pub const START_ADDR: u16 = 0x200;

/// Largest program that fits in memory above the start address.
pub const MAX_ROM_SIZE: usize = 3584;

/// Size of the built-in font: sixteen glyphs of five bytes.
pub const FONTSET_SIZE: usize = 80;

/// Instructions to execute per rendered frame.
pub const TICKS_PER_FRAME: u8 = 7;

} // verus!
