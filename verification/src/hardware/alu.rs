//! The arithmetic-logic unit.
//!
//! The six bits of a function code are control lines, from the most
//! significant: zero the first operand, negate it, zero the second operand,
//! negate it, add (rather than and) the two, negate the output. That fixes
//! the result of every one of the 64 codes; the eighteen codes the assembly
//! language names are listed in [`Operation`], and
//! [`alu_computes_operation`] shows that each computes what its name says.

use vstd::prelude::*;
use super::instruction::Word;

verus! {

/// The word that `value` is congruent to modulo 65536.
pub open spec fn wrap16(value: int) -> Word {
    if value > 32767 {
        (value - 65536) as Word
    } else if value < -32768 {
        (value + 65536) as Word
    } else {
        value as Word
    }
}

/// The result of the ALU for any 6-bit function code, on the data register
/// `x` and the second operand `y`.
pub open spec fn alu_spec(function: u8, x: Word, y: Word) -> Word {
    let x1 = if function / 32 % 2 == 1 { 0 } else { x };
    let x2 = if function / 16 % 2 == 1 { !x1 } else { x1 };
    let y1 = if function / 8 % 2 == 1 { 0 } else { y };
    let y2 = if function / 4 % 2 == 1 { !y1 } else { y1 };
    let out = if function / 2 % 2 == 1 { x2.wrapping_add(y2) } else { x2 & y2 };
    if function % 2 == 1 { !out } else { out }
}

/// What the ALU hands to the rest of the processor.
#[derive(Clone, Copy, Debug, PartialEq, Eq, Structural)]
pub struct AluOutput {
    pub value: Word,
    /// The value is zero.
    pub zero: bool,
    /// The value is below zero.
    pub negative: bool,
}

/// Computes function `function` on the data register `x` and the second operand `y`.
pub fn alu(function: u8, x: Word, y: Word) -> (out: AluOutput)
    ensures
        out.value == alu_spec(function, x, y),
        out.zero == (out.value == 0),
        out.negative == (out.value < 0),
{
    let x1: Word = if function / 32 % 2 == 1 { 0 } else { x };
    let x2: Word = if function / 16 % 2 == 1 { !x1 } else { x1 };
    let y1: Word = if function / 8 % 2 == 1 { 0 } else { y };
    let y2: Word = if function / 4 % 2 == 1 { !y1 } else { y1 };
    let sum: Word = if function / 2 % 2 == 1 { x2.wrapping_add(y2) } else { x2 & y2 };
    let value: Word = if function % 2 == 1 { !sum } else { sum };
    AluOutput { value, zero: value == 0, negative: value < 0 }
}

/// The eighteen operations that the assembly language names. `D` is the data
/// register, `Y` the second operand (the address register or the addressed
/// memory cell).
#[derive(Clone, Copy, Debug, PartialEq, Eq, Structural)]
pub enum Operation {
    Zero,
    One,
    MinusOne,
    D,
    Y,
    NotD,
    NotY,
    NegD,
    NegY,
    IncD,
    IncY,
    DecD,
    DecY,
    DPlusY,
    DMinusY,
    YMinusD,
    DAndY,
    DOrY,
}

impl Operation {
    /// The function code of the operation.
    pub open spec fn code_spec(self) -> u8 {
        match self {
            Operation::Zero => 0b101010,
            Operation::One => 0b111111,
            Operation::MinusOne => 0b111010,
            Operation::D => 0b001100,
            Operation::Y => 0b110000,
            Operation::NotD => 0b001101,
            Operation::NotY => 0b110001,
            Operation::NegD => 0b001111,
            Operation::NegY => 0b110011,
            Operation::IncD => 0b011111,
            Operation::IncY => 0b110111,
            Operation::DecD => 0b001110,
            Operation::DecY => 0b110010,
            Operation::DPlusY => 0b000010,
            Operation::DMinusY => 0b010011,
            Operation::YMinusD => 0b000111,
            Operation::DAndY => 0b000000,
            Operation::DOrY => 0b010101,
        }
    }

    /// What the operation computes, in 16-bit two's-complement arithmetic:
    /// sums and differences wrap around silently.
    pub open spec fn apply(self, d: Word, y: Word) -> Word {
        match self {
            Operation::Zero => 0,
            Operation::One => 1,
            Operation::MinusOne => -1i16,
            Operation::D => d,
            Operation::Y => y,
            Operation::NotD => !d,
            Operation::NotY => !y,
            Operation::NegD => wrap16(-d),
            Operation::NegY => wrap16(-y),
            Operation::IncD => wrap16(d + 1),
            Operation::IncY => wrap16(y + 1),
            Operation::DecD => wrap16(d - 1),
            Operation::DecY => wrap16(y - 1),
            Operation::DPlusY => wrap16(d + y),
            Operation::DMinusY => wrap16(d - y),
            Operation::YMinusD => wrap16(y - d),
            Operation::DAndY => d & y,
            Operation::DOrY => d | y,
        }
    }

    /// Whether the result depends on the second operand.
    pub open spec fn uses_operand_spec(self) -> bool {
        match self {
            Operation::Zero => false,
            Operation::One => false,
            Operation::MinusOne => false,
            Operation::D => false,
            Operation::NotD => false,
            Operation::NegD => false,
            Operation::IncD => false,
            Operation::DecD => false,
            _ => true,
        }
    }

    /// Whether the result depends on the second operand.
    #[verifier::when_used_as_spec(uses_operand_spec)]
    pub fn uses_operand(self) -> (uses: bool)
        ensures
            uses == self.uses_operand_spec(),
    {
        match self {
            Operation::Zero => false,
            Operation::One => false,
            Operation::MinusOne => false,
            Operation::D => false,
            Operation::NotD => false,
            Operation::NegD => false,
            Operation::IncD => false,
            Operation::DecD => false,
            _ => true,
        }
    }

    /// The operation with function code `code`, if the code is one of the eighteen.
    pub open spec fn from_code_spec(code: u8) -> Option<Operation> {
        if code == 0b101010 {
            Some(Operation::Zero)
        } else if code == 0b111111 {
            Some(Operation::One)
        } else if code == 0b111010 {
            Some(Operation::MinusOne)
        } else if code == 0b001100 {
            Some(Operation::D)
        } else if code == 0b110000 {
            Some(Operation::Y)
        } else if code == 0b001101 {
            Some(Operation::NotD)
        } else if code == 0b110001 {
            Some(Operation::NotY)
        } else if code == 0b001111 {
            Some(Operation::NegD)
        } else if code == 0b110011 {
            Some(Operation::NegY)
        } else if code == 0b011111 {
            Some(Operation::IncD)
        } else if code == 0b110111 {
            Some(Operation::IncY)
        } else if code == 0b001110 {
            Some(Operation::DecD)
        } else if code == 0b110010 {
            Some(Operation::DecY)
        } else if code == 0b000010 {
            Some(Operation::DPlusY)
        } else if code == 0b010011 {
            Some(Operation::DMinusY)
        } else if code == 0b000111 {
            Some(Operation::YMinusD)
        } else if code == 0b000000 {
            Some(Operation::DAndY)
        } else if code == 0b010101 {
            Some(Operation::DOrY)
        } else {
            None
        }
    }

    /// The function code of the operation.
    #[verifier::when_used_as_spec(code_spec)]
    pub fn code(self) -> (code: u8)
        ensures
            code == self.code_spec(),
            code < 64,
            Operation::from_code_spec(code) == Some(self),
    {
        match self {
            Operation::Zero => 0b101010,
            Operation::One => 0b111111,
            Operation::MinusOne => 0b111010,
            Operation::D => 0b001100,
            Operation::Y => 0b110000,
            Operation::NotD => 0b001101,
            Operation::NotY => 0b110001,
            Operation::NegD => 0b001111,
            Operation::NegY => 0b110011,
            Operation::IncD => 0b011111,
            Operation::IncY => 0b110111,
            Operation::DecD => 0b001110,
            Operation::DecY => 0b110010,
            Operation::DPlusY => 0b000010,
            Operation::DMinusY => 0b010011,
            Operation::YMinusD => 0b000111,
            Operation::DAndY => 0b000000,
            Operation::DOrY => 0b010101,
        }
    }

    /// The operation with function code `code`, if the code is one of the eighteen.
    #[verifier::when_used_as_spec(from_code_spec)]
    pub fn from_code(code: u8) -> (operation: Option<Operation>)
        ensures
            operation == Operation::from_code_spec(code),
            operation matches Some(op) ==> op.code_spec() == code,
    {
        if code == 0b101010 {
            Some(Operation::Zero)
        } else if code == 0b111111 {
            Some(Operation::One)
        } else if code == 0b111010 {
            Some(Operation::MinusOne)
        } else if code == 0b001100 {
            Some(Operation::D)
        } else if code == 0b110000 {
            Some(Operation::Y)
        } else if code == 0b001101 {
            Some(Operation::NotD)
        } else if code == 0b110001 {
            Some(Operation::NotY)
        } else if code == 0b001111 {
            Some(Operation::NegD)
        } else if code == 0b110011 {
            Some(Operation::NegY)
        } else if code == 0b011111 {
            Some(Operation::IncD)
        } else if code == 0b110111 {
            Some(Operation::IncY)
        } else if code == 0b001110 {
            Some(Operation::DecD)
        } else if code == 0b110010 {
            Some(Operation::DecY)
        } else if code == 0b000010 {
            Some(Operation::DPlusY)
        } else if code == 0b010011 {
            Some(Operation::DMinusY)
        } else if code == 0b000111 {
            Some(Operation::YMinusD)
        } else if code == 0b000000 {
            Some(Operation::DAndY)
        } else if code == 0b010101 {
            Some(Operation::DOrY)
        } else {
            None
        }
    }
}

/// An operation that does not use the second operand gives the same result
/// whatever that operand is.
pub proof fn operand_is_ignored(operation: Operation, d: Word, first: Word, second: Word)
    requires
        !operation.uses_operand_spec(),
    ensures
        operation.apply(d, first) == operation.apply(d, second),
{
}

/// For each of the eighteen named operations and all operands, the ALU run
/// on the operation's function code gives what the operation computes,
/// wrap-around at the 16-bit boundary included.
pub proof fn alu_computes_operation(operation: Operation, d: Word, y: Word)
    ensures
        alu_spec(operation.code_spec(), d, y) == operation.apply(d, y),
{
    match operation {
        Operation::Zero => {
            assert(0i16 & 0i16 == 0i16) by (bit_vector);
        },
        Operation::One => {
            assert(!((!0i16).wrapping_add(!0i16)) == 1i16) by (bit_vector);
        },
        Operation::MinusOne => {
            assert((!0i16).wrapping_add(0i16) == -1i16) by (bit_vector);
        },
        Operation::D => {
            assert(d & !0i16 == d) by (bit_vector);
        },
        Operation::Y => {
            assert(!0i16 & y == y) by (bit_vector);
        },
        Operation::NotD => {
            assert(!(d & !0i16) == !d) by (bit_vector);
        },
        Operation::NotY => {
            assert(!(!0i16 & y) == !y) by (bit_vector);
        },
        Operation::NegD => {
            assert(!(d.wrapping_add(!0i16)) == 0i16.wrapping_sub(d)) by (bit_vector);
        },
        Operation::NegY => {
            assert(!((!0i16).wrapping_add(y)) == 0i16.wrapping_sub(y)) by (bit_vector);
        },
        Operation::IncD => {
            assert(!((!d).wrapping_add(!0i16)) == d.wrapping_add(1i16)) by (bit_vector);
        },
        Operation::IncY => {
            assert(!((!0i16).wrapping_add(!y)) == y.wrapping_add(1i16)) by (bit_vector);
        },
        Operation::DecD => {
            assert(d.wrapping_add(!0i16) == d.wrapping_sub(1i16)) by (bit_vector);
        },
        Operation::DecY => {
            assert((!0i16).wrapping_add(y) == y.wrapping_sub(1i16)) by (bit_vector);
        },
        Operation::DPlusY => {},
        Operation::DMinusY => {
            assert(!((!d).wrapping_add(y)) == d.wrapping_sub(y)) by (bit_vector);
        },
        Operation::YMinusD => {
            assert(!(d.wrapping_add(!y)) == y.wrapping_sub(d)) by (bit_vector);
        },
        Operation::DAndY => {},
        Operation::DOrY => {
            assert(!(!d & !y) == d | y) by (bit_vector);
        },
    }
}

} // verus!
