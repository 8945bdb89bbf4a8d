//! A virtual machine for an 8-bit interpreted instruction set: 4096 bytes of
//! memory, sixteen registers, a call stack, a 64 by 32 monochrome display,
//! two timers and a pad of sixteen keys.
//!
//! [`emulator::Emulator`] is the machine as a program runs it. Its behaviour is
//! stated over [`machine::Machine`], the same state as a mathematical value:
//! every operation of the emulator ends in the state that the corresponding
//! function of the model gives, and reports what that function says.
//!
//! # Conventions
//!
//! * The program counter holds a byte address. An instruction takes two bytes,
//!   so the next instruction lies two bytes further and a skip moves four.
//! * The two bytes of an instruction are joined with the first byte above the
//!   second.
//! * A call pushes the address of the call instruction itself, and a return
//!   continues at the address it pops.
//! * The shift instructions shift register `x` in place and ignore `y`.
//! * An instruction that writes both the flag register and a result writes the
//!   flag first: where the result goes to the flag register, the result stays.
//! * Sprites wrap: a pixel that would fall off the display on the right or at
//!   the bottom reappears on the opposite side.
//! * A key number that the pad does not have counts as a key that is not held
//!   down.
//! * A step that cannot be taken is reported and changes nothing.

pub mod constants;
pub mod display;
pub mod emulator;
pub mod error;
pub mod font;
pub mod instruction;
pub mod machine;
