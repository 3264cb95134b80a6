use vstd::prelude::*;

verus! {

/// Why an instruction could not be carried out.
#[derive(Debug, PartialEq, Eq, Structural, Clone, Copy)]
pub enum ChipError {
    /// The opcode matches no instruction; carries the raw 16-bit word.
    IllegalInst(u16),
    /// A memory access reached past the end of memory.
    IllegalAddr(u16),
    /// A register index outside `0..16`.
    IllegalReg(u8),
    /// A key index outside `0..16`.
    IllegalKey(u8),
    /// A call with no room left on the stack.
    StackOverflow,
    /// A return with nothing on the stack.
    StackUnderflow,
}

} // verus!
