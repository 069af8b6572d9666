//! The mnemonics of the assembly language.
//!
//! A compute instruction is written `dest=comp;jump`, where `dest=` and
//! `;jump` may each be left out. `dest` is one to three of the letters `A`,
//! `D` and `M`, each at most once, in any order. `comp` and `jump` are taken
//! from fixed tables.

use vstd::prelude::*;
use crate::hardware::alu::Operation;
use crate::hardware::instruction::{Decoded, Destinations, Jump};
use crate::text::{part, spells, spells_spec};

verus! {

/// The letter of the address register.
pub const LETTER_A: u8 = 65;

/// The letter of the data register.
pub const LETTER_D: u8 = 68;

/// The letter of the addressed memory cell.
pub const LETTER_M: u8 = 77;

/// The byte behind the destinations: `=`.
pub const EQUALS: u8 = 61;

/// The byte before the jump condition: `;`.
pub const SEMICOLON: u8 = 59;

/// What the `comp` field of a compute instruction selects.
#[derive(Clone, Copy, Debug, PartialEq, Eq, Structural)]
pub struct Computation {
    /// The second operand is the addressed memory cell, written `M`, rather
    /// than the address register, written `A`.
    pub use_memory: bool,
    pub operation: Operation,
}

/// The computation that the mnemonic `bytes` names.
pub open spec fn comp_spec(bytes: Seq<u8>) -> Option<Computation> {
    if spells_spec(bytes, "0") {
        Some(Computation { use_memory: false, operation: Operation::Zero })
    } else if spells_spec(bytes, "1") {
        Some(Computation { use_memory: false, operation: Operation::One })
    } else if spells_spec(bytes, "-1") {
        Some(Computation { use_memory: false, operation: Operation::MinusOne })
    } else if spells_spec(bytes, "D") {
        Some(Computation { use_memory: false, operation: Operation::D })
    } else if spells_spec(bytes, "!D") {
        Some(Computation { use_memory: false, operation: Operation::NotD })
    } else if spells_spec(bytes, "-D") {
        Some(Computation { use_memory: false, operation: Operation::NegD })
    } else if spells_spec(bytes, "D+1") {
        Some(Computation { use_memory: false, operation: Operation::IncD })
    } else if spells_spec(bytes, "D-1") {
        Some(Computation { use_memory: false, operation: Operation::DecD })
    } else if spells_spec(bytes, "A") {
        Some(Computation { use_memory: false, operation: Operation::Y })
    } else if spells_spec(bytes, "!A") {
        Some(Computation { use_memory: false, operation: Operation::NotY })
    } else if spells_spec(bytes, "-A") {
        Some(Computation { use_memory: false, operation: Operation::NegY })
    } else if spells_spec(bytes, "A+1") {
        Some(Computation { use_memory: false, operation: Operation::IncY })
    } else if spells_spec(bytes, "A-1") {
        Some(Computation { use_memory: false, operation: Operation::DecY })
    } else if spells_spec(bytes, "D+A") {
        Some(Computation { use_memory: false, operation: Operation::DPlusY })
    } else if spells_spec(bytes, "D-A") {
        Some(Computation { use_memory: false, operation: Operation::DMinusY })
    } else if spells_spec(bytes, "A-D") {
        Some(Computation { use_memory: false, operation: Operation::YMinusD })
    } else if spells_spec(bytes, "D&A") {
        Some(Computation { use_memory: false, operation: Operation::DAndY })
    } else if spells_spec(bytes, "D|A") {
        Some(Computation { use_memory: false, operation: Operation::DOrY })
    } else if spells_spec(bytes, "M") {
        Some(Computation { use_memory: true, operation: Operation::Y })
    } else if spells_spec(bytes, "!M") {
        Some(Computation { use_memory: true, operation: Operation::NotY })
    } else if spells_spec(bytes, "-M") {
        Some(Computation { use_memory: true, operation: Operation::NegY })
    } else if spells_spec(bytes, "M+1") {
        Some(Computation { use_memory: true, operation: Operation::IncY })
    } else if spells_spec(bytes, "M-1") {
        Some(Computation { use_memory: true, operation: Operation::DecY })
    } else if spells_spec(bytes, "D+M") {
        Some(Computation { use_memory: true, operation: Operation::DPlusY })
    } else if spells_spec(bytes, "D-M") {
        Some(Computation { use_memory: true, operation: Operation::DMinusY })
    } else if spells_spec(bytes, "M-D") {
        Some(Computation { use_memory: true, operation: Operation::YMinusD })
    } else if spells_spec(bytes, "D&M") {
        Some(Computation { use_memory: true, operation: Operation::DAndY })
    } else if spells_spec(bytes, "D|M") {
        Some(Computation { use_memory: true, operation: Operation::DOrY })
    } else {
        None
    }
}

/// The computation that the mnemonic `bytes` names.
pub fn comp(bytes: &[u8]) -> (out: Option<Computation>)
    ensures
        out == comp_spec(bytes@),
{
    if spells(bytes, "0") {
        Some(Computation { use_memory: false, operation: Operation::Zero })
    } else if spells(bytes, "1") {
        Some(Computation { use_memory: false, operation: Operation::One })
    } else if spells(bytes, "-1") {
        Some(Computation { use_memory: false, operation: Operation::MinusOne })
    } else if spells(bytes, "D") {
        Some(Computation { use_memory: false, operation: Operation::D })
    } else if spells(bytes, "!D") {
        Some(Computation { use_memory: false, operation: Operation::NotD })
    } else if spells(bytes, "-D") {
        Some(Computation { use_memory: false, operation: Operation::NegD })
    } else if spells(bytes, "D+1") {
        Some(Computation { use_memory: false, operation: Operation::IncD })
    } else if spells(bytes, "D-1") {
        Some(Computation { use_memory: false, operation: Operation::DecD })
    } else if spells(bytes, "A") {
        Some(Computation { use_memory: false, operation: Operation::Y })
    } else if spells(bytes, "!A") {
        Some(Computation { use_memory: false, operation: Operation::NotY })
    } else if spells(bytes, "-A") {
        Some(Computation { use_memory: false, operation: Operation::NegY })
    } else if spells(bytes, "A+1") {
        Some(Computation { use_memory: false, operation: Operation::IncY })
    } else if spells(bytes, "A-1") {
        Some(Computation { use_memory: false, operation: Operation::DecY })
    } else if spells(bytes, "D+A") {
        Some(Computation { use_memory: false, operation: Operation::DPlusY })
    } else if spells(bytes, "D-A") {
        Some(Computation { use_memory: false, operation: Operation::DMinusY })
    } else if spells(bytes, "A-D") {
        Some(Computation { use_memory: false, operation: Operation::YMinusD })
    } else if spells(bytes, "D&A") {
        Some(Computation { use_memory: false, operation: Operation::DAndY })
    } else if spells(bytes, "D|A") {
        Some(Computation { use_memory: false, operation: Operation::DOrY })
    } else if spells(bytes, "M") {
        Some(Computation { use_memory: true, operation: Operation::Y })
    } else if spells(bytes, "!M") {
        Some(Computation { use_memory: true, operation: Operation::NotY })
    } else if spells(bytes, "-M") {
        Some(Computation { use_memory: true, operation: Operation::NegY })
    } else if spells(bytes, "M+1") {
        Some(Computation { use_memory: true, operation: Operation::IncY })
    } else if spells(bytes, "M-1") {
        Some(Computation { use_memory: true, operation: Operation::DecY })
    } else if spells(bytes, "D+M") {
        Some(Computation { use_memory: true, operation: Operation::DPlusY })
    } else if spells(bytes, "D-M") {
        Some(Computation { use_memory: true, operation: Operation::DMinusY })
    } else if spells(bytes, "M-D") {
        Some(Computation { use_memory: true, operation: Operation::YMinusD })
    } else if spells(bytes, "D&M") {
        Some(Computation { use_memory: true, operation: Operation::DAndY })
    } else if spells(bytes, "D|M") {
        Some(Computation { use_memory: true, operation: Operation::DOrY })
    } else {
        None
    }
}

/// The jump condition that the mnemonic `bytes` names.
pub open spec fn jump_spec(bytes: Seq<u8>) -> Option<Jump> {
    if spells_spec(bytes, "JGT") {
        Some(Jump::Greater)
    } else if spells_spec(bytes, "JEQ") {
        Some(Jump::Equal)
    } else if spells_spec(bytes, "JGE") {
        Some(Jump::GreaterEqual)
    } else if spells_spec(bytes, "JLT") {
        Some(Jump::Less)
    } else if spells_spec(bytes, "JNE") {
        Some(Jump::NotEqual)
    } else if spells_spec(bytes, "JLE") {
        Some(Jump::LessEqual)
    } else if spells_spec(bytes, "JMP") {
        Some(Jump::Always)
    } else {
        None
    }
}

/// The jump condition that the mnemonic `bytes` names.
pub fn jump(bytes: &[u8]) -> (out: Option<Jump>)
    ensures
        out == jump_spec(bytes@),
{
    if spells(bytes, "JGT") {
        Some(Jump::Greater)
    } else if spells(bytes, "JEQ") {
        Some(Jump::Equal)
    } else if spells(bytes, "JGE") {
        Some(Jump::GreaterEqual)
    } else if spells(bytes, "JLT") {
        Some(Jump::Less)
    } else if spells(bytes, "JNE") {
        Some(Jump::NotEqual)
    } else if spells(bytes, "JLE") {
        Some(Jump::LessEqual)
    } else if spells(bytes, "JMP") {
        Some(Jump::Always)
    } else {
        None
    }
}

/// The destinations that the letters `bytes` name, if each is one of `A`,
/// `D` and `M` and none comes twice. No letters name no destination.
pub open spec fn letters_spec(bytes: Seq<u8>) -> Option<Destinations>
    decreases bytes.len(),
{
    if bytes.len() == 0 {
        Some(Destinations { a: false, d: false, m: false })
    } else {
        match letters_spec(bytes.drop_last()) {
            None => None,
            Some(dest) => if bytes.last() == LETTER_A && !dest.a {
                Some(Destinations { a: true, ..dest })
            } else if bytes.last() == LETTER_D && !dest.d {
                Some(Destinations { d: true, ..dest })
            } else if bytes.last() == LETTER_M && !dest.m {
                Some(Destinations { m: true, ..dest })
            } else {
                None
            },
        }
    }
}

/// The destinations that the `dest` field `bytes` names.
pub open spec fn dest_spec(bytes: Seq<u8>) -> Option<Destinations> {
    if bytes.len() == 0 {
        None
    } else {
        letters_spec(bytes)
    }
}

/// Once a beginning of the letters names no destinations, the whole does not.
proof fn letters_fail_for_good(bytes: Seq<u8>, count: int)
    requires
        0 <= count <= bytes.len(),
        letters_spec(bytes.take(count)).is_none(),
    ensures
        letters_spec(bytes).is_none(),
    decreases bytes.len() - count,
{
    if count == bytes.len() {
        assert(bytes.take(count) == bytes);
    } else {
        assert(bytes.take(count + 1).drop_last() == bytes.take(count));
        letters_fail_for_good(bytes, count + 1);
    }
}

/// The destinations that the `dest` field `bytes` names.
pub fn dest(bytes: &[u8]) -> (out: Option<Destinations>)
    ensures
        out == dest_spec(bytes@),
{
    if bytes.len() == 0 {
        return None;
    }
    let mut found = Destinations { a: false, d: false, m: false };
    let mut i: usize = 0;
    while i < bytes.len()
        invariant
            i <= bytes.len(),
            letters_spec(bytes@.take(i as int)) == Some(found),
        decreases bytes.len() - i,
    {
        assert(bytes@.take(i + 1).drop_last() == bytes@.take(i as int));
        let letter = bytes[i];
        if letter == LETTER_A && !found.a {
            found.a = true;
        } else if letter == LETTER_D && !found.d {
            found.d = true;
        } else if letter == LETTER_M && !found.m {
            found.m = true;
        } else {
            proof {
                letters_fail_for_good(bytes@, i + 1);
            }
            return None;
        }
        i += 1;
    }
    assert(bytes@.take(bytes.len() as int) == bytes@);
    Some(found)
}

/// The position of the first `byte` in `bytes` at or after `from`, or the
/// length of `bytes` if there is none.
pub open spec fn find_spec(bytes: Seq<u8>, byte: u8, from: int) -> int
    decreases bytes.len() - from,
{
    if from >= bytes.len() {
        bytes.len() as int
    } else if bytes[from] == byte {
        from
    } else {
        find_spec(bytes, byte, from + 1)
    }
}

/// The position of the first `byte` in `bytes`, or the length of `bytes`.
pub fn find(bytes: &[u8], byte: u8) -> (at: usize)
    ensures
        at == find_spec(bytes@, byte, 0),
        at <= bytes.len(),
{
    let mut at: usize = 0;
    while at < bytes.len() && bytes[at] != byte
        invariant
            at <= bytes.len(),
            find_spec(bytes@, byte, 0) == find_spec(bytes@, byte, at as int),
        decreases bytes.len() - at,
    {
        at += 1;
    }
    at
}

/// The three fields of the compute instruction `bytes`: what stands before
/// the first `=` (nothing, without one), what stands behind the first `;`
/// that follows (nothing, without one), and what stands between.
pub open spec fn fields_spec(bytes: Seq<u8>) -> (Option<Seq<u8>>, Seq<u8>, Option<Seq<u8>>) {
    let equals = find_spec(bytes, EQUALS, 0);
    let rest = if equals < bytes.len() { bytes.skip(equals + 1) } else { bytes };
    let semicolon = find_spec(rest, SEMICOLON, 0);
    (
        if equals < bytes.len() { Some(bytes.take(equals)) } else { None },
        rest.take(semicolon),
        if semicolon < rest.len() { Some(rest.skip(semicolon + 1)) } else { None },
    )
}

/// The fields of the compute instruction that `bytes` writes.
pub open spec fn compute_spec(bytes: Seq<u8>) -> Option<Decoded> {
    let (dest_field, comp_field, jump_field) = fields_spec(bytes);
    let dest = if dest_field is Some {
        dest_spec(dest_field->0)
    } else {
        Some(Destinations { a: false, d: false, m: false })
    };
    let comp = comp_spec(comp_field);
    let jump = if jump_field is Some { jump_spec(jump_field->0) } else { Some(Jump::Never) };
    if dest is Some && comp is Some && jump is Some {
        Some(
            Decoded::Compute {
                spare: 3,
                use_memory: comp->0.use_memory,
                function: comp->0.operation.code_spec(),
                dest: dest->0,
                jump: jump->0,
            },
        )
    } else {
        None
    }
}

/// Reads `bytes` as a compute instruction.
pub fn compute(bytes: &[u8]) -> (out: Option<Decoded>)
    ensures
        out == compute_spec(bytes@),
        out matches Some(decoded) ==> decoded.wf() && decoded is Compute,
{
    let equals = find(bytes, EQUALS);
    let (destinations, rest) = if equals < bytes.len() {
        (dest(part(bytes, 0, equals)), part(bytes, equals + 1, bytes.len()))
    } else {
        (Some(Destinations { a: false, d: false, m: false }), bytes)
    };
    let semicolon = find(rest, SEMICOLON);
    let computation = comp(part(rest, 0, semicolon));
    let condition = if semicolon < rest.len() {
        jump(part(rest, semicolon + 1, rest.len()))
    } else {
        Some(Jump::Never)
    };
    match (destinations, computation, condition) {
        (Some(dest), Some(computation), Some(jump)) => Some(
            Decoded::Compute {
                spare: 3,
                use_memory: computation.use_memory,
                function: computation.operation.code(),
                dest,
                jump,
            },
        ),
        _ => None,
    }
}

} // verus!
