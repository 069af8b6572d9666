//! Breakpoints: a watched quantity and the value at which execution stops.

use vstd::prelude::*;
use super::instruction::Word;

verus! {

/// The quantity a breakpoint watches.
#[derive(Clone, Copy, Debug, PartialEq, Eq, Structural)]
pub enum BreakpointVar {
    /// The address register.
    A,
    /// The data register.
    D,
    /// The program counter.
    PC,
    /// The memory cell at the given address.
    RAM(Word),
}

/// Stops execution when `var` equals `value`.
#[derive(Clone, Copy, Debug, PartialEq, Eq, Structural)]
pub struct Breakpoint {
    pub var: BreakpointVar,
    pub value: Word,
}

} // verus!
