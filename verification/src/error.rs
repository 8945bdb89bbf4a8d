use vstd::prelude::*;

verus! {

/// What can stop the machine from loading a program or taking a step.
#[derive(Clone, Copy, Debug, PartialEq, Eq, Structural)]
pub enum Error {
    /// A byte outside memory was addressed; the field is the first such address.
    OutOfBoundsMemoryAccess(u16),
    /// The program is longer than the memory that follows the program start.
    NotEnoughMemoryForProgram,
    /// The sixteen bits, held in the field, encode no instruction.
    InvalidInstruction(u16),
    /// A call was made while the stack was full.
    StackOverflow,
    /// A return was made while the stack was empty.
    StackUnderflow,
}

} // verus!
