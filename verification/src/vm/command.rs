//! The commands of the stack machine.
//!
//! Labels and functions are named by number: the position of the name in the
//! table of names that the program keeps.

use vstd::prelude::*;

verus! {

/// A named view of a region of the data memory.
#[derive(Clone, Copy, Debug, PartialEq, Eq, Structural)]
pub enum Segment {
    Argument,
    Local,
    Static,
    Constant,
    This,
    That,
    Pointer,
    Temp,
}

/// What a binary, unary or comparing command computes.
#[derive(Clone, Copy, Debug, PartialEq, Eq, Structural)]
pub enum Arithmetic {
    Add,
    Sub,
    Neg,
    Eq,
    Gt,
    Lt,
    And,
    Or,
    Not,
}

/// One command of a stack-machine program.
#[derive(Clone, Copy, Debug, PartialEq, Eq, Structural)]
pub enum Command {
    /// Pushes the value of cell `1` of segment `0`.
    Push(Segment, u16),
    /// Pops the top of the stack into cell `1` of segment `0`.
    Pop(Segment, u16),
    Arithmetic(Arithmetic),
    /// Declares the label with the given name.
    Label(usize),
    /// Continues at the label with the given name.
    Goto(usize),
    /// Pops the top of the stack and continues at the label with the given
    /// name if the value is not zero.
    IfGoto(usize),
    /// Declares the function with name `0`, which has `1` local variables.
    Function(usize, u16),
    /// Calls the function with name `0`, for which `1` arguments have been pushed.
    Call(usize, u16),
    Return,
}

/// Address of the cell that holds the stack pointer.
pub const SP: u16 = 0;

/// Address of the cell that holds the base of the local segment.
pub const LCL: u16 = 1;

/// Address of the cell that holds the base of the argument segment.
pub const ARG: u16 = 2;

/// Address of the cell that holds the base of the `this` segment, and first
/// cell of the pointer segment.
pub const THIS: u16 = 3;

/// Address of the cell that holds the base of the `that` segment.
pub const THAT: u16 = 4;

/// First cell of the temp segment.
pub const TEMP: u16 = 5;

/// Two cells that the translated code uses for itself.
pub const SCRATCH: u16 = 13;

/// The second scratch cell.
pub const SCRATCH2: u16 = 14;

/// First cell of the static segments.
pub const STATICS: u16 = 16;

/// Number of cells that all static segments have together.
pub const STATIC_CELLS: u16 = 240;

/// Where the stack starts.
pub const STACK: u16 = 256;

/// The largest number that a command may hold: 15 bits.
pub const LARGEST: u16 = 32767;

impl Segment {
    /// The largest index that the segment has.
    pub open spec fn last_index_spec(self) -> u16 {
        match self {
            Segment::Pointer => 1,
            Segment::Temp => 7,
            Segment::Static => (STATIC_CELLS - 1) as u16,
            _ => LARGEST,
        }
    }

    /// The largest index that the segment has.
    #[verifier::when_used_as_spec(last_index_spec)]
    pub fn last_index(self) -> (last: u16)
        ensures
            last == self.last_index_spec(),
    {
        match self {
            Segment::Pointer => 1,
            Segment::Temp => 7,
            Segment::Static => STATIC_CELLS - 1,
            _ => LARGEST,
        }
    }

    /// The cell that holds the base address of the segment, for the four
    /// segments that have one.
    pub open spec fn base_cell_spec(self) -> Option<u16> {
        match self {
            Segment::Local => Some(LCL),
            Segment::Argument => Some(ARG),
            Segment::This => Some(THIS),
            Segment::That => Some(THAT),
            _ => None,
        }
    }

    /// The cell that holds the base address of the segment, for the four
    /// segments that have one.
    #[verifier::when_used_as_spec(base_cell_spec)]
    pub fn base_cell(self) -> (cell: Option<u16>)
        ensures
            cell == self.base_cell_spec(),
    {
        match self {
            Segment::Local => Some(LCL),
            Segment::Argument => Some(ARG),
            Segment::This => Some(THIS),
            Segment::That => Some(THAT),
            _ => None,
        }
    }
}

impl Command {
    /// The numbers in the command are within their limits: a segment index
    /// within the segment, a constant is never popped into, and a call leaves
    /// room for the five cells of the frame.
    pub open spec fn wf(self) -> bool {
        match self {
            Command::Push(segment, index) => index <= segment.last_index_spec(),
            Command::Pop(segment, index) => segment != Segment::Constant && index
                <= segment.last_index_spec(),
            Command::Function(_, locals) => locals <= LARGEST,
            Command::Call(_, arguments) => arguments <= LARGEST - 5,
            _ => true,
        }
    }

    /// The name that the command mentions, if any.
    pub open spec fn name(self) -> Option<usize> {
        match self {
            Command::Label(name) => Some(name),
            Command::Goto(name) => Some(name),
            Command::IfGoto(name) => Some(name),
            Command::Function(name, _) => Some(name),
            Command::Call(name, _) => Some(name),
            _ => None,
        }
    }

    /// The number of static cells that the command needs its file to have.
    pub open spec fn statics(self) -> int {
        match self {
            Command::Push(Segment::Static, index) => index + 1,
            Command::Pop(Segment::Static, index) => index + 1,
            _ => 0,
        }
    }
}

} // verus!
