use vstd::prelude::*;

verus! {

/// Number of bytes of addressable memory.
pub const MEMORY_SIZE: usize = 4096;

/// Number of general-purpose registers; the last one doubles as the flag.
pub const NUM_REGISTERS: usize = 16;

/// Index of the register that receives carry, borrow and collision flags.
pub const FLAG_REGISTER: usize = 15;

/// Number of return addresses the call stack can hold.
pub const MAX_STACK_SIZE: usize = 16;

/// Number of keys on the pad.
pub const NUM_KEYS: usize = 16;

/// Width of the display in pixels.
pub const DISPLAY_WIDTH: usize = 64;

/// Height of the display in pixels.
pub const DISPLAY_HEIGHT: usize = 32;

/// Number of pixels of the display, stored row by row.
pub const DISPLAY_SIZE: usize = 2048;

/// Address of the first byte of the glyph table.
pub const FONT_BEGIN_ADDR: u16 = 0x050;

/// Address at which a loaded program begins.
pub const PROGRAM_BEGIN_ADDR: u16 = 0x200;

/// Distance in bytes between two consecutive instructions.
pub const INSTRUCTION_SIZE: u16 = 2;

/// Value of the generator's state in a fresh machine.
pub const RANDOM_SEED: u8 = 123;

/// Multiplier of the linear-congruential generator.
pub const RANDOM_MULTIPLIER: u8 = 97;

/// Increment of the linear-congruential generator.
pub const RANDOM_INCREMENT: u8 = 17;

/// Modulus of the linear-congruential generator.
pub const RANDOM_MODULE: u8 = 251;

} // verus!
