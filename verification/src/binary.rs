//! Programs written as text, one instruction word per line in sixteen
//! binary digits.
//!
//! Blanks and comments are ignored, and so are lines that hold nothing
//! else. Any other line must be exactly sixteen digits `0` or `1`, most
//! significant first.

use vstd::prelude::*;
use crate::error::{LoadError, Span};
use crate::hardware::cpu::ROM_SIZE;
use crate::hardware::instruction::Instruction;
use crate::text::{content, content_spec, line_end, line_end_bounds, line_end_spec, part};

verus! {

/// The digit `0`.
pub const DIGIT_ZERO: u8 = 48;

/// The digit `1`.
pub const DIGIT_ONE: u8 = 49;

/// The number that the binary digits `digits` write.
pub open spec fn binary_value(digits: Seq<u8>) -> int
    decreases digits.len(),
{
    if digits.len() == 0 {
        0
    } else {
        2 * binary_value(digits.drop_last()) + (digits.last() - DIGIT_ZERO)
    }
}

/// The instruction word that `content` writes, if it is sixteen binary digits.
pub open spec fn word_spec(content: Seq<u8>) -> Option<u16> {
    if content.len() == 16 && forall|i: int|
        0 <= i < 16 ==> content[i] == DIGIT_ZERO || content[i] == DIGIT_ONE {
        Some(binary_value(content) as u16)
    } else {
        None
    }
}

/// The largest number that `count` binary digits write.
spec fn largest(count: nat) -> int
    decreases count,
{
    if count == 0 {
        0
    } else {
        2 * largest((count - 1) as nat) + 1
    }
}

proof fn largest_of_sixteen(count: nat)
    requires
        count <= 16,
    ensures
        largest(count) <= 65535,
    decreases 16 - count,
{
    if count == 16 {
        reveal_with_fuel(largest, 17);
    } else {
        largest_of_sixteen(count + 1);
    }
}

/// The instruction word that `content` writes, if it is sixteen binary digits.
pub fn word(content: &[u8]) -> (out: Option<u16>)
    ensures
        out == word_spec(content@),
        out matches Some(w) ==> w == binary_value(content@),
{
    if content.len() != 16 {
        return None;
    }
    let mut value: u32 = 0;
    let mut i: usize = 0;
    while i < 16
        invariant
            i <= 16,
            content.len() == 16,
            forall|k: int| 0 <= k < i ==> content@[k] == DIGIT_ZERO || content@[k] == DIGIT_ONE,
            value == binary_value(content@.take(i as int)),
            0 <= value <= largest(i as nat),
        decreases 16 - i,
    {
        if content[i] != DIGIT_ZERO && content[i] != DIGIT_ONE {
            return None;
        }
        assert(content@.take(i + 1).drop_last() == content@.take(i as int));
        proof {
            largest_of_sixteen(i as nat);
            largest_of_sixteen((i + 1) as nat);
        }
        value = 2 * value + (content[i] - DIGIT_ZERO) as u32;
        i += 1;
    }
    proof {
        assert(content@.take(16) == content@);
        largest_of_sixteen(16);
    }
    Some(value as u16)
}

/// The instructions of the lines of `text` from position `start` on, put
/// behind `words`; `line` is the number of lines before `start`. The first
/// line that is not an instruction word makes the whole text fail, and so
/// does the instruction that no longer fits the instruction memory.
pub open spec fn parse_from(text: Seq<u8>, start: int, line: int, words: Seq<Instruction>) -> Result<
    Seq<Instruction>,
    LoadError,
>
    decreases text.len() - start,
{
    let end = line_end_spec(text, start);
    let content = content_spec(text.subrange(start, end));
    let span = Span { line: (line + 1) as usize, start: start as usize, end: end as usize };
    if start < 0 || start > text.len() {
        Ok(words)
    } else if content.len() > 0 && word_spec(content).is_none() {
        Err(LoadError::MalformedWord(span))
    } else if content.len() > 0 && words.len() >= ROM_SIZE {
        Err(LoadError::ProgramTooLong)
    } else {
        let words = if content.len() > 0 {
            words.push(Instruction { raw: word_spec(content).unwrap() })
        } else {
            words
        };
        if end >= text.len() {
            Ok(words)
        } else {
            proof {
                line_end_bounds(text, start);
            }
            parse_from(text, end + 1, line + 1, words)
        }
    }
}

/// The program that `text` writes, or why it writes none.
pub open spec fn parse_spec(text: Seq<u8>) -> Result<Seq<Instruction>, LoadError> {
    parse_from(text, 0, 0, Seq::empty())
}

/// Reads a program written as lines of binary digits.
pub fn parse(text: &[u8]) -> (result: Result<Vec<Instruction>, LoadError>)
    ensures
        result matches Ok(program) ==> parse_spec(text@) == Ok::<Seq<Instruction>, LoadError>(program@)
            && program.len() <= ROM_SIZE,
        result matches Err(error) ==> parse_spec(text@) == Err::<Seq<Instruction>, LoadError>(error),
{
    let mut words: Vec<Instruction> = Vec::new();
    let mut start: usize = 0;
    let mut line: usize = 0;
    loop
        invariant
            line <= start <= text.len(),
            words.len() <= ROM_SIZE,
            parse_spec(text@) == parse_from(text@, start as int, line as int, words@),
        decreases text.len() - start,
    {
        let end = line_end(text, start);
        let said = content(part(text, start, end));
        if said.len() > 0 {
            match word(said.as_slice()) {
                None => {
                    return Err(LoadError::MalformedWord(Span { line: line + 1, start, end }));
                },
                Some(raw) => {
                    if words.len() >= ROM_SIZE {
                        return Err(LoadError::ProgramTooLong);
                    }
                    words.push(Instruction { raw });
                },
            }
        }
        if end >= text.len() {
            return Ok(words);
        }
        start = end + 1;
        line = line + 1;
    }
}

} // verus!
