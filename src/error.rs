use vstd::prelude::*;

verus! {

/// The faults that a program or a load can raise. None of them unwinds:
/// each is handed back to the host as a status.
#[derive(Clone, Copy, Debug, PartialEq, Eq, Structural)]
pub enum Chip8Error {
    /// A read or write outside the 4096-byte address space.
    AddressOutOfBounds,
    /// A CALL with all sixteen stack slots in use.
    StackOverflow,
    /// A RET with an empty stack.
    StackUnderflow,
    /// A program longer than the program region.
    ProgramTooLarge,
    /// A word that is no instruction.
    InvalidOpcode,
    /// A font glyph that does not exist.
    UnmappedFont,
}

} // verus!
