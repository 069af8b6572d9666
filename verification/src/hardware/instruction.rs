//! The two instruction encodings of the Hack machine.
//!
//! An instruction is one 16-bit word. Counting bits from the least
//! significant one:
//!
//! * bit 15 clear: an address instruction; bits 0..=14 are the immediate
//!   loaded into the address register.
//! * bit 15 set: a compute instruction; bits 13..=14 are spare, bit 12 selects
//!   the second ALU operand (address register or addressed memory cell), bits
//!   6..=11 are the function code, bits 3..=5 the destinations (address
//!   register, data register, memory) and bits 0..=2 the jump condition.
//!
//! Every one of the 65536 words decodes, and encoding the result gives the
//! word back.

use vstd::prelude::*;

verus! {

/// A machine word: a 16-bit two's-complement integer.
pub type Word = i16;

/// The raw, unsigned form of a 16-bit word, used for instruction encodings.
pub type UWord = u16;

/// The jump condition of a compute instruction, tested against the ALU output.
#[derive(Clone, Copy, Debug, PartialEq, Eq, Structural)]
pub enum Jump {
    Never,
    Greater,
    Equal,
    GreaterEqual,
    Less,
    NotEqual,
    LessEqual,
    Always,
}

impl Jump {
    /// The 3-bit selector of this condition.
    pub open spec fn code_spec(self) -> u8 {
        match self {
            Jump::Never => 0,
            Jump::Greater => 1,
            Jump::Equal => 2,
            Jump::GreaterEqual => 3,
            Jump::Less => 4,
            Jump::NotEqual => 5,
            Jump::LessEqual => 6,
            Jump::Always => 7,
        }
    }

    /// The condition selected by the low three bits of `code`.
    pub open spec fn from_code_spec(code: u8) -> Jump {
        let c = code % 8;
        if c == 0 {
            Jump::Never
        } else if c == 1 {
            Jump::Greater
        } else if c == 2 {
            Jump::Equal
        } else if c == 3 {
            Jump::GreaterEqual
        } else if c == 4 {
            Jump::Less
        } else if c == 5 {
            Jump::NotEqual
        } else if c == 6 {
            Jump::LessEqual
        } else {
            Jump::Always
        }
    }

    /// Whether the condition holds of the ALU output `out`.
    pub open spec fn holds_spec(self, out: Word) -> bool {
        match self {
            Jump::Never => false,
            Jump::Greater => out > 0,
            Jump::Equal => out == 0,
            Jump::GreaterEqual => out >= 0,
            Jump::Less => out < 0,
            Jump::NotEqual => out != 0,
            Jump::LessEqual => out <= 0,
            Jump::Always => true,
        }
    }

    /// The 3-bit selector of this condition.
    #[verifier::when_used_as_spec(code_spec)]
    pub fn code(self) -> (c: u8)
        ensures
            c == self.code_spec(),
            c < 8,
    {
        match self {
            Jump::Never => 0,
            Jump::Greater => 1,
            Jump::Equal => 2,
            Jump::GreaterEqual => 3,
            Jump::Less => 4,
            Jump::NotEqual => 5,
            Jump::LessEqual => 6,
            Jump::Always => 7,
        }
    }

    /// The condition selected by the low three bits of `code`.
    pub fn from_code(code: u8) -> (j: Jump)
        ensures
            j == Jump::from_code_spec(code),
            code < 8 ==> j.code_spec() == code,
    {
        let c: u8 = code % 8;
        if c == 0 {
            Jump::Never
        } else if c == 1 {
            Jump::Greater
        } else if c == 2 {
            Jump::Equal
        } else if c == 3 {
            Jump::GreaterEqual
        } else if c == 4 {
            Jump::Less
        } else if c == 5 {
            Jump::NotEqual
        } else if c == 6 {
            Jump::LessEqual
        } else {
            Jump::Always
        }
    }

    /// Whether the condition holds of the ALU output `out`.
    #[verifier::when_used_as_spec(holds_spec)]
    pub fn holds(self, out: Word) -> (taken: bool)
        ensures
            taken == self.holds_spec(out),
    {
        match self {
            Jump::Never => false,
            Jump::Greater => out > 0,
            Jump::Equal => out == 0,
            Jump::GreaterEqual => out >= 0,
            Jump::Less => out < 0,
            Jump::NotEqual => out != 0,
            Jump::LessEqual => out <= 0,
            Jump::Always => true,
        }
    }

    /// The selector's three bits are the three signs: bit 2 stands for a
    /// negative output, bit 1 for zero, bit 0 for a positive one, and the
    /// jump is taken when the bit of the output's sign is set.
    pub proof fn holds_by_sign_bits(self, out: Word)
        ensures
            self.holds_spec(out) == (if out < 0 {
                self.code_spec() / 4 % 2 == 1
            } else if out == 0 {
                self.code_spec() / 2 % 2 == 1
            } else {
                self.code_spec() % 2 == 1
            }),
    {
    }
}

/// The registers a compute instruction stores its result in.
#[derive(Clone, Copy, Debug, PartialEq, Eq, Structural)]
pub struct Destinations {
    /// The address register.
    pub a: bool,
    /// The data register.
    pub d: bool,
    /// The memory cell that the address register points at.
    pub m: bool,
}

impl Destinations {
    /// The 3-bit field of these destinations.
    pub open spec fn code_spec(self) -> u8 {
        ((if self.a { 4int } else { 0 }) + (if self.d { 2int } else { 0 }) + (if self.m { 1int } else { 0 })) as u8
    }

    /// The destinations that the 3-bit field `code` selects.
    pub open spec fn from_code_spec(code: u8) -> Destinations {
        Destinations { a: code / 4 % 2 == 1, d: code / 2 % 2 == 1, m: code % 2 == 1 }
    }

    /// The 3-bit field of these destinations.
    #[verifier::when_used_as_spec(code_spec)]
    pub fn code(self) -> (c: u8)
        ensures
            c == self.code_spec(),
            c < 8,
    {
        let a: u8 = if self.a { 4 } else { 0 };
        let d: u8 = if self.d { 2 } else { 0 };
        let m: u8 = if self.m { 1 } else { 0 };
        a + d + m
    }

    /// The destinations that the 3-bit field `code` selects.
    pub fn from_code(code: u8) -> (dest: Destinations)
        ensures
            dest == Destinations::from_code_spec(code),
            code < 8 ==> dest.code_spec() == code,
    {
        Destinations { a: code / 4 % 2 == 1, d: code / 2 % 2 == 1, m: code % 2 == 1 }
    }
}

/// What an instruction word says, field by field.
#[derive(Clone, Copy, Debug, PartialEq, Eq, Structural)]
pub enum Decoded {
    /// Load `value` (15 bits) into the address register.
    Address { value: UWord },
    /// Compute `function` on the data register and a second operand, store
    /// the result in `dest` and jump on `jump`.
    Compute {
        /// Bits 13..=14, which the machine ignores (assemblers set both).
        spare: u8,
        /// Whether the second operand is the addressed memory cell rather
        /// than the address register.
        use_memory: bool,
        /// The 6-bit ALU function code.
        function: u8,
        dest: Destinations,
        jump: Jump,
    },
}

impl Decoded {
    /// Every field lies within its bit width.
    pub open spec fn wf(self) -> bool {
        match self {
            Decoded::Address { value } => value < 0x8000,
            Decoded::Compute { spare, function, .. } => spare < 4 && function < 64,
        }
    }

    /// The instruction word made of these fields.
    pub open spec fn encode_spec(self) -> UWord {
        match self {
            Decoded::Address { value } => value,
            Decoded::Compute { spare, use_memory, function, dest, jump } => (0x8000 + spare * 0x2000
                + (if use_memory { 0x1000int } else { 0 }) + function * 64 + dest.code_spec() * 8
                + jump.code_spec()) as UWord,
        }
    }

    /// Whether executing the instruction reads or writes the addressed memory cell.
    pub open spec fn touches_memory(self) -> bool {
        match self {
            Decoded::Address { .. } => false,
            Decoded::Compute { use_memory, dest, .. } => use_memory || dest.m,
        }
    }

    /// The instruction word made of these fields.
    #[verifier::when_used_as_spec(encode_spec)]
    pub fn encode(self) -> (raw: UWord)
        requires
            self.wf(),
        ensures
            raw == self.encode_spec(),
            decode_word(raw) == self,
    {
        match self {
            Decoded::Address { value } => value,
            Decoded::Compute { spare, use_memory, function, dest, jump } => {
                let spare_bits: u16 = spare as u16 * 0x2000;
                let operand_bit: u16 = if use_memory { 0x1000 } else { 0 };
                let function_bits: u16 = function as u16 * 64;
                let dest_bits: u16 = dest.code() as u16 * 8;
                proof {
                    encode_then_decode(self);
                }
                0x8000 + spare_bits + operand_bit + function_bits + dest_bits + jump.code() as u16
            },
        }
    }
}

/// The fields of the instruction word `raw`.
pub open spec fn decode_word(raw: UWord) -> Decoded {
    if raw < 0x8000 {
        Decoded::Address { value: raw }
    } else {
        Decoded::Compute {
            spare: (raw / 0x2000 % 4) as u8,
            use_memory: raw / 0x1000 % 2 == 1,
            function: (raw / 64 % 64) as u8,
            dest: Destinations::from_code_spec((raw / 8 % 8) as u8),
            jump: Jump::from_code_spec((raw % 8) as u8),
        }
    }
}

/// One instruction of a program, held as the 16-bit word that encodes it.
#[derive(Clone, Copy, Debug, PartialEq, Eq, Structural)]
pub struct Instruction {
    pub raw: UWord,
}

impl Instruction {
    /// The instruction that the word `raw` encodes.
    pub fn new(raw: UWord) -> (instruction: Instruction)
        ensures
            instruction.raw == raw,
    {
        Instruction { raw }
    }

    /// The fields of the instruction word.
    pub open spec fn decode_spec(self) -> Decoded {
        decode_word(self.raw)
    }

    /// The fields of the instruction word.
    #[verifier::when_used_as_spec(decode_spec)]
    pub fn decode(self) -> (decoded: Decoded)
        ensures
            decoded == self.decode_spec(),
            decoded.wf(),
            decoded.encode_spec() == self.raw,
    {
        proof {
            decode_then_encode(self.raw);
        }
        if self.raw < 0x8000 {
            Decoded::Address { value: self.raw }
        } else {
            Decoded::Compute {
                spare: (self.raw / 0x2000 % 4) as u8,
                use_memory: self.raw / 0x1000 % 2 == 1,
                function: (self.raw / 64 % 64) as u8,
                dest: Destinations::from_code((self.raw / 8 % 8) as u8),
                jump: Jump::from_code((self.raw % 8) as u8),
            }
        }
    }
}

proof fn lemma_split_fields(raw: u16)
    by (bit_vector)
    requires
        raw >= 0x8000,
    ensures
        0x8000 + (raw / 0x2000 % 4) * 0x2000 + (raw / 0x1000 % 2) * 0x1000 + (raw / 64 % 64) * 64 + (
        raw / 8 % 8) * 8 + raw % 8 == raw,
        raw / 0x2000 % 4 < 4,
        raw / 0x1000 % 2 < 2,
        raw / 64 % 64 < 64,
        raw / 8 % 8 < 8,
        raw % 8 < 8,
{
}

proof fn lemma_join_fields(raw: u16, spare: u16, operand: u16, function: u16, dest: u16, jump: u16)
    by (bit_vector)
    requires
        spare < 4,
        operand < 2,
        function < 64,
        dest < 8,
        jump < 8,
        raw == 0x8000 + spare * 0x2000 + operand * 0x1000 + function * 64 + dest * 8 + jump,
    ensures
        raw >= 0x8000,
        raw / 0x2000 % 4 == spare,
        raw / 0x1000 % 2 == operand,
        raw / 64 % 64 == function,
        raw / 8 % 8 == dest,
        raw % 8 == jump,
{
}

proof fn lemma_code_bits(code: u8)
    by (bit_vector)
    requires
        code < 8,
    ensures
        (if code / 4 % 2 == 1 { 4u8 } else { 0u8 }) + (if code / 2 % 2 == 1 { 2u8 } else { 0u8 }) + (if code % 2 == 1 { 1u8 } else { 0u8 }) == code,
        code % 8 == code,
{
}

/// Decoding any 16-bit word and encoding the result gives the word back.
pub proof fn decode_then_encode(raw: UWord)
    ensures
        decode_word(raw).wf(),
        decode_word(raw).encode_spec() == raw,
{
    if raw >= 0x8000 {
        lemma_split_fields(raw);
        lemma_code_bits((raw / 8 % 8) as u8);
        lemma_code_bits((raw % 8) as u8);
    }
}

/// Encoding any well-formed set of fields and decoding the word gives the
/// fields back.
pub proof fn encode_then_decode(decoded: Decoded)
    requires
        decoded.wf(),
    ensures
        decode_word(decoded.encode_spec()) == decoded,
{
    match decoded {
        Decoded::Address { .. } => {},
        Decoded::Compute { spare, use_memory, function, dest, jump } => {
            let operand: u16 = if use_memory { 1 } else { 0 };
            let raw = decoded.encode_spec();
            lemma_join_fields(
                raw,
                spare as u16,
                operand,
                function as u16,
                dest.code_spec() as u16,
                jump.code_spec() as u16,
            );
            assert(Destinations::from_code_spec(dest.code_spec()) == dest);
            assert(Jump::from_code_spec(jump.code_spec()) == jump);
        },
    }
}

} // verus!
