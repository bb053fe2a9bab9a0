//! The typed failures that the engine reports to its host.

use vstd::prelude::*;

verus! {

/// What went wrong.
#[derive(Clone, Copy, Debug, PartialEq, Eq, Structural)]
pub enum ErrorKind {
    /// The word is not an instruction, or an operand value lies outside the
    /// domain of its instruction (a key or glyph number above 0xF).
    InvalidOpcode,
    /// CALL with all sixteen stack levels in use.
    StackOverflow,
    /// RET with an empty stack.
    StackUnderflow,
    /// An address used by the instruction, or by its fetch, is 4096 or more.
    OutOfBoundsMemoryAccess,
    /// The program does not fit between 0x200 and the end of memory.
    ProgramTooLarge,
}

/// A failed instruction: the kind of failure, the instruction word and the
/// program counter at which it was fetched. Where the fetch itself failed no
/// word was read and `opcode` is 0.
#[derive(Clone, Copy, Debug, PartialEq, Eq, Structural)]
pub struct Fault {
    pub kind: ErrorKind,
    pub opcode: u16,
    pub pc: u16,
}

} // verus!
