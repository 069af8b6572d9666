//! Why a program could not be loaded.

use vstd::prelude::*;

verus! {

/// A line of a source text: its number, counted from 1, and the range of
/// bytes it occupies in the text, line break excluded.
#[derive(Clone, Copy, Debug, PartialEq, Eq, Structural)]
pub struct Span {
    pub line: usize,
    pub start: usize,
    pub end: usize,
}

impl Span {
    /// The span of line number `line`, counted from 0, which reaches from
    /// `start` to `end` and is not empty.
    pub fn of_line(line: usize, start: usize, end: usize) -> (span: Span)
        requires
            line <= start < end,
        ensures
            span == (Span { line: (line + 1) as usize, start, end }),
    {
        Span { line: line + 1, start, end }
    }
}

/// A failure to load a program. Nothing is loaded when one is reported.
#[derive(Clone, Copy, Debug, PartialEq, Eq, Structural)]
pub enum LoadError {
    /// The program has more instructions than the instruction memory holds.
    ProgramTooLong,
    /// The line is no instruction, label or command of the language.
    Syntax(Span),
    /// The line declares a symbol that is already defined.
    DuplicateSymbol(Span),
    /// The line holds a number that does not fit its field.
    OutOfRange(Span),
    /// The line needs a new variable and no data memory is left for one.
    OutOfMemory(Span),
    /// The line is not one instruction word written as sixteen binary digits.
    MalformedWord(Span),
    /// The program already has a file of this name.
    DuplicateFile,
}

} // verus!
