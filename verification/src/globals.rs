use vstd::prelude::*;

verus! {

/// Number of bytes of addressable memory.
pub const RAM_SIZE: usize = 4096;

/// Number of return addresses the call stack has room for.
pub const STACK_SIZE: usize = 16;

/// Number of general byte registers; the last one doubles as the flag.
pub const REG_COUNT: usize = 16;

/// Number of keys on the keypad.
pub const KEY_COUNT: usize = 16;

/// Width of the screen in pixels.
pub const SCREEN_WIDTH: usize = 64;

/// Height of the screen in pixels.
pub const SCREEN_HEIGHT: usize = 32;

/// Number of bytes in the packed framebuffer, one bit per pixel.
pub const SCREEN_BUFFER_SIZE: usize = SCREEN_WIDTH * SCREEN_HEIGHT / 8;

/// Address at which the hexadecimal digit glyphs are stored.
pub const FONT_ADDR: u16 = 0x0050;

/// Default of the shift quirk: whether `8xy6` and `8xyE` shift `Vy` (true)
/// or `Vx` (false).
pub const SHIFT_OP_USE_VY: bool = true;

/// Seed the random generator starts from.
pub const DEFAULT_SEED: u32 = 0x5321a409;

} // verus!
