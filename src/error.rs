use vstd::prelude::*;

verus! {

/// The faults that the machine reports instead of aborting.
#[derive(Clone, Copy, Debug, PartialEq, Eq, Structural)]
pub enum Chip8Error {
    /// The opcode matches no instruction of the closed instruction set.
    UnknownOpcode(u16),
    /// A read or write would fall outside the 4096 bytes of memory.
    MemoryOutOfRange,
    /// A call was made with all sixteen stack slots in use.
    StackOverflow,
    /// A return was made with an empty stack.
    StackUnderflow,
    /// A key index outside 0..16.
    InvalidKey,
}

} // verus!
