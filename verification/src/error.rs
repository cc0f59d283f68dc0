//! The reasons for which the machine stops.

use vstd::prelude::*;

verus! {

/// Why an operation of the machine was refused. Each of them marks a program
/// image that is malformed or was written for another platform.
#[derive(Debug, Clone, Copy, PartialEq, Eq, Structural)]
pub enum Fault {
    /// The word is no instruction of the active platform.
    UnknownInstruction,
    /// A read or write at an address above the end of memory.
    OutOfBounds(u16),
    /// A write into the region reserved for the interpreter.
    ReservedWrite(u16),
    /// A push onto a full call stack.
    StackOverflow,
    /// A pop from an empty call stack.
    StackUnderflow,
    /// The digit has no glyph of the requested size on the active platform.
    InvalidFontDigit(u8),
    /// The bitmask selects a plane that does not exist.
    InvalidPlane(u8),
    /// The active platform cannot save or restore that many flag registers.
    InvalidRplCount(u8),
    /// The value names no key of the sixteen-key pad.
    InvalidKey(u8),
    /// The value is below the lowest pitch the pattern buffer can be played at.
    InvalidPitch(u8),
}

/// A fault together with the instruction that raised it.
#[derive(Debug, Clone, Copy, PartialEq, Eq, Structural)]
pub struct ExecutionError {
    /// The address the failing instruction was fetched from.
    pub address: u16,
    /// The failing instruction's word; `None` where the fetch itself failed.
    pub instruction: Option<u16>,
    pub fault: Fault,
}

} // verus!
