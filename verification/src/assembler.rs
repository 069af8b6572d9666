//! The assembler: from symbolic assembly text to the instruction words of a
//! program.

pub mod listing;
pub mod round_trip;
pub mod symbols;
pub mod syntax;

use vstd::prelude::*;
use vstd::slice::slice_to_vec;
use vstd::string::StringSliceAdditionalSpecFns;
use crate::error::{LoadError, Span};
use crate::hardware::alu::Operation;
use crate::hardware::cpu::ROM_SIZE;
use crate::hardware::instruction::{decode_then_encode, decode_word, Decoded, Instruction};
use crate::text::{
    content, content_spec, is_digit, is_digit_spec, line_end, line_end_bounds, line_end_spec,
    number, number_spec, part, Number,
};
use listing::{
    compute_text_reads_back, compute_text_starts_with_a_field, decimal_text,
    decimal_text_reads_back, has_mnemonics, instruction_text,
};
use symbols::{
    define_then_lookup, is_symbol, is_symbol_spec, SymbolTable, Symbols, FIRST_VARIABLE,
    LAST_ADDRESS,
};
use syntax::{compute, compute_spec};

verus! {

/// The byte that opens a label: `(`.
pub const OPEN: u8 = 40;

/// The byte that closes a label: `)`.
pub const CLOSE: u8 = 41;

/// The byte that starts an address instruction: `@`.
pub const AT: u8 = 64;

/// The symbol that the label line `content` declares: what stands between
/// `(` and `)`, if that is a symbol.
pub open spec fn label_spec(content: Seq<u8>) -> Option<Seq<u8>> {
    if content.len() >= 2 && content[0] == OPEN && content.last() == CLOSE && is_symbol_spec(
        content.subrange(1, content.len() - 1),
    ) {
        Some(content.subrange(1, content.len() - 1))
    } else {
        None
    }
}

/// What line `content` adds to the symbols `symbols` when `count`
/// instructions stand before it: a label line declares its symbol as the
/// address of the next instruction, which must be a new symbol and an
/// address of 15 bits; an instruction line makes the count go up; a line
/// that says nothing changes nothing.
#[verifier::opaque]
pub open spec fn declare_spec(content: Seq<u8>, span: Span, count: int, symbols: Symbols) -> Result<
    (int, Symbols),
    LoadError,
> {
    if content.len() == 0 {
        Ok((count, symbols))
    } else if content[0] != OPEN {
        Ok((count + 1, symbols))
    } else if label_spec(content).is_none() {
        Err(LoadError::Syntax(span))
    } else if symbols.resolve(label_spec(content).unwrap()) is Some {
        Err(LoadError::DuplicateSymbol(span))
    } else if count > LAST_ADDRESS {
        Err(LoadError::OutOfRange(span))
    } else {
        Ok((count, symbols.define(label_spec(content).unwrap(), count as u16)))
    }
}

/// The first pass, from position `start` of the text on: the symbols that
/// the label lines declare, added to `symbols` in the order of the lines.
/// `line` is the number of lines and `count` the number of instructions
/// before `start`.
pub open spec fn labels_from(text: Seq<u8>, start: int, line: int, count: int, symbols: Symbols) -> Result<
    Symbols,
    LoadError,
>
    decreases text.len() - start,
{
    if start < 0 || start > text.len() {
        Ok(symbols)
    } else {
        let end = line_end_spec(text, start);
        let span = Span { line: (line + 1) as usize, start: start as usize, end: end as usize };
        match declare_spec(content_spec(text.subrange(start, end)), span, count, symbols) {
            Err(error) => Err(error),
            Ok((count, symbols)) => if end >= text.len() {
                Ok(symbols)
            } else {
                proof {
                    line_end_bounds(text, start);
                }
                labels_from(text, end + 1, line + 1, count, symbols)
            },
        }
    }
}

/// The state of the second pass: the symbols defined so far, the address
/// that the next new variable gets, and the instructions written so far.
pub struct Output {
    pub symbols: Symbols,
    pub next_variable: int,
    pub words: Seq<Instruction>,
}

impl Output {
    /// The state after one more instruction.
    pub open spec fn emit(self, raw: u16) -> Output {
        Output { words: self.words.push(Instruction { raw }), ..self }
    }
}

/// What line `content` adds to the output. A label line or a line that says
/// nothing adds nothing. `@` before a number is the address instruction
/// for that number, which must fit 15 bits; `@` before a symbol is the
/// address instruction for the symbol's address, where a symbol without one
/// becomes a variable at the next free address. Any other line must be a
/// compute instruction.
#[verifier::opaque]
pub open spec fn emit_spec(content: Seq<u8>, span: Span, output: Output) -> Result<Output, LoadError> {
    let operand = content.skip(1);
    if content.len() == 0 || content[0] == OPEN {
        Ok(output)
    } else if output.words.len() >= ROM_SIZE {
        Err(LoadError::ProgramTooLong)
    } else if content[0] != AT {
        match compute_spec(content) {
            None => Err(LoadError::Syntax(span)),
            Some(decoded) => Ok(output.emit(decoded.encode_spec())),
        }
    } else if operand.len() > 0 && is_digit_spec(operand[0]) {
        match number_spec(operand, LAST_ADDRESS) {
            Number::Malformed => Err(LoadError::Syntax(span)),
            Number::TooLarge => Err(LoadError::OutOfRange(span)),
            Number::Value(value) => Ok(output.emit(value)),
        }
    } else if !is_symbol_spec(operand) {
        Err(LoadError::Syntax(span))
    } else if output.symbols.resolve(operand) is Some {
        Ok(output.emit(output.symbols.resolve(operand).unwrap()))
    } else if output.next_variable > LAST_ADDRESS {
        Err(LoadError::OutOfMemory(span))
    } else {
        Ok(
            Output {
                symbols: output.symbols.define(operand, output.next_variable as u16),
                next_variable: output.next_variable + 1,
                words: output.words.push(Instruction { raw: output.next_variable as u16 }),
            },
        )
    }
}

/// The second pass, from position `start` of the text on: the instructions
/// of the lines, written behind those of `output` in the order of the lines.
pub open spec fn words_from(text: Seq<u8>, start: int, line: int, output: Output) -> Result<
    Seq<Instruction>,
    LoadError,
>
    decreases text.len() - start,
{
    if start < 0 || start > text.len() {
        Ok(output.words)
    } else {
        let end = line_end_spec(text, start);
        let span = Span { line: (line + 1) as usize, start: start as usize, end: end as usize };
        match emit_spec(content_spec(text.subrange(start, end)), span, output) {
            Err(error) => Err(error),
            Ok(output) => if end >= text.len() {
                Ok(output.words)
            } else {
                proof {
                    line_end_bounds(text, start);
                }
                words_from(text, end + 1, line + 1, output)
            },
        }
    }
}

/// The program that the assembly text `text` stands for, or the first
/// reason why it stands for none: that of the first pass, over all lines,
/// before that of the second.
pub open spec fn assemble_spec(text: Seq<u8>) -> Result<Seq<Instruction>, LoadError> {
    match labels_from(text, 0, 0, 0, Symbols::empty()) {
        Err(error) => Err(error),
        Ok(symbols) => words_from(
            text,
            0,
            0,
            Output { symbols, next_variable: FIRST_VARIABLE as int, words: Seq::empty() },
        ),
    }
}

/// What `assemble` promises of its result for the text `text`.
pub open spec fn assembled(text: Seq<u8>, result: Result<Vec<Instruction>, LoadError>) -> bool {
    match result {
        Ok(program) => assemble_spec(text) == Ok::<Seq<Instruction>, LoadError>(program@),
        Err(error) => assemble_spec(text) == Err::<Seq<Instruction>, LoadError>(error),
    }
}

/// Assembling the same text twice gives the same program, or the same failure.
pub proof fn assembling_twice_gives_the_same(
    text: Seq<u8>,
    first: Result<Vec<Instruction>, LoadError>,
    second: Result<Vec<Instruction>, LoadError>,
)
    requires
        assembled(text, first),
        assembled(text, second),
    ensures
        match (first, second) {
            (Ok(one), Ok(other)) => one@ == other@,
            (Err(one), Err(other)) => one == other,
            _ => false,
        },
{
}

/// The address instruction for a symbol that has no address yet makes the
/// symbol a variable in the next free cell: the instruction loads that cell,
/// the symbol stands for it from then on, the next variable gets the cell
/// behind it, and every other symbol keeps its address.
pub proof fn new_variable_gets_the_next_cell(name: Seq<u8>, span: Span, output: Output, other: Seq<u8>)
    requires
        is_symbol_spec(name),
        output.symbols.names.len() == output.symbols.addresses.len(),
        output.symbols.resolve(name).is_none(),
        output.words.len() < ROM_SIZE,
        FIRST_VARIABLE <= output.next_variable <= LAST_ADDRESS,
    ensures
        emit_spec(seq![AT] + name, span, output) is Ok,
        ({
            let after = emit_spec(seq![AT] + name, span, output).unwrap();
            &&& after.words == output.words.push(Instruction { raw: output.next_variable as u16 })
            &&& after.next_variable == output.next_variable + 1
            &&& after.symbols.resolve(name) == Some(output.next_variable as u16)
            &&& other != name ==> after.symbols.resolve(other) == output.symbols.resolve(other)
        }),
{
    reveal(emit_spec);
    let content = seq![AT] + name;
    assert(content.skip(1) == name);
    assert(content[0] == AT);
    define_then_lookup(output.symbols, name, output.next_variable as u16, other);
}

/// The word `@` is the one byte that starts an address instruction.
pub proof fn at_sign_is_one_byte()
    ensures
        "@".spec_bytes() == seq![AT],
{
    reveal_strlit("@");
    assert(vstd::utf8::is_ascii_chars("@"@));
    vstd::utf8::is_ascii_chars_encode_utf8("@"@);
    assert("@".spec_bytes() =~= seq![AT]);
}

/// The text of an address instruction assembles to that instruction.
pub proof fn address_text_assembles_back(value: u16, span: Span, output: Output)
    requires
        value <= LAST_ADDRESS,
        output.words.len() < ROM_SIZE,
    ensures
        emit_spec(instruction_text(value), span, output) == Ok::<Output, LoadError>(output.emit(value)),
{
    reveal(emit_spec);
    at_sign_is_one_byte();
    decimal_text_reads_back(value, LAST_ADDRESS);
    let content = instruction_text(value);
    assert(content == seq![AT] + decimal_text(value));
    assert(content.skip(1) =~= decimal_text(value));
    assert(content[0] == AT);
    assert(is_digit_spec(decimal_text(value)[0]));
}

/// The text of an instruction that has one in mnemonics assembles to the
/// instruction.
pub proof fn instruction_text_assembles_back(raw: u16, span: Span, output: Output)
    requires
        output.words.len() < ROM_SIZE,
        decode_word(raw) matches Decoded::Compute { spare, use_memory, function, .. }
            ==> has_mnemonics(spare, use_memory, function),
    ensures
        emit_spec(instruction_text(raw), span, output) == Ok::<Output, LoadError>(output.emit(raw)),
{
    match decode_word(raw) {
        Decoded::Address { value } => {
            address_text_assembles_back(raw, span, output);
        },
        Decoded::Compute { spare, use_memory, function, dest, jump } => {
            reveal(emit_spec);
            let operation = Operation::from_code_spec(function).unwrap();
            compute_text_reads_back(use_memory, operation, dest, jump);
            compute_text_starts_with_a_field(use_memory, operation, dest, jump);
            decode_then_encode(raw);
        },
    }
}

fn declare(
    content: &[u8],
    line: usize,
    start: usize,
    end: usize,
    count: usize,
    symbols: &mut SymbolTable,
) -> (result: Result<usize, LoadError>)
    requires
        old(symbols).wf(),
        count <= line <= start <= end,
        content.len() <= end - start,
    ensures
        final(symbols).wf(),
        result matches Ok(next) ==> next <= count + 1,
        declare_spec(
            content@,
            Span { line: (line + 1) as usize, start, end },
            count as int,
            old(symbols)@,
        ) == match result {
            Ok(next) => Ok::<(int, Symbols), LoadError>((next as int, final(symbols)@)),
            Err(error) => Err::<(int, Symbols), LoadError>(error),
        },
{
    reveal(declare_spec);
    if content.len() == 0 {
        return Ok(count);
    }
    if content[0] != OPEN {
        return Ok(count + 1);
    }
    let span = Span::of_line(line, start, end);
    if content.len() < 2 || content[content.len() - 1] != CLOSE {
        return Err(LoadError::Syntax(span));
    }
    let name = part(content, 1, content.len() - 1);
    if !is_symbol(name) {
        return Err(LoadError::Syntax(span));
    }
    if symbols.resolve(name).is_some() {
        return Err(LoadError::DuplicateSymbol(span));
    }
    if count > LAST_ADDRESS as usize {
        return Err(LoadError::OutOfRange(span));
    }
    symbols.define(slice_to_vec(name), count as u16);
    Ok(count)
}

fn emit(
    content: &[u8],
    line: usize,
    start: usize,
    end: usize,
    symbols: &mut SymbolTable,
    next_variable: &mut u16,
    words: &mut Vec<Instruction>,
) -> (result: Result<(), LoadError>)
    requires
        old(symbols).wf(),
        *old(next_variable) <= LAST_ADDRESS + 1,
        old(words).len() <= ROM_SIZE,
        line <= start <= end,
        content.len() <= end - start,
    ensures
        final(symbols).wf(),
        *final(next_variable) <= LAST_ADDRESS + 1,
        final(words).len() <= ROM_SIZE,
        match emit_spec(
            content@,
            Span { line: (line + 1) as usize, start, end },
            Output {
                symbols: old(symbols)@,
                next_variable: *old(next_variable) as int,
                words: old(words)@,
            },
        ) {
            Ok(output) => result == Ok::<(), LoadError>(()) && final(symbols)@ == output.symbols
                && *final(next_variable) == output.next_variable && final(words)@ == output.words,
            Err(error) => result == Err::<(), LoadError>(error),
        },
{
    reveal(emit_spec);
    if content.len() == 0 || content[0] == OPEN {
        return Ok(());
    }
    if words.len() >= ROM_SIZE {
        return Err(LoadError::ProgramTooLong);
    }
    let span = Span::of_line(line, start, end);
    if content[0] != AT {
        return match compute(content) {
            None => Err(LoadError::Syntax(span)),
            Some(decoded) => {
                words.push(Instruction { raw: decoded.encode() });
                Ok(())
            },
        };
    }
    let operand = part(content, 1, content.len());
    assert(operand@ == content@.skip(1));
    if operand.len() > 0 && is_digit(operand[0]) {
        return match number(operand, LAST_ADDRESS) {
            Number::Malformed => Err(LoadError::Syntax(span)),
            Number::TooLarge => Err(LoadError::OutOfRange(span)),
            Number::Value(value) => {
                words.push(Instruction { raw: value });
                Ok(())
            },
        };
    }
    if !is_symbol(operand) {
        return Err(LoadError::Syntax(span));
    }
    match symbols.resolve(operand) {
        Some(address) => {
            words.push(Instruction { raw: address });
            Ok(())
        },
        None => {
            if *next_variable > LAST_ADDRESS {
                return Err(LoadError::OutOfMemory(span));
            }
            symbols.define(slice_to_vec(operand), *next_variable);
            words.push(Instruction { raw: *next_variable });
            *next_variable = *next_variable + 1;
            Ok(())
        },
    }
}

/// Translates the assembly text `text` into a program. A text with a line
/// that cannot be translated gives no program at all.
pub fn assemble(text: &[u8]) -> (result: Result<Vec<Instruction>, LoadError>)
    ensures
        assembled(text@, result),
        result matches Ok(program) ==> program.len() <= ROM_SIZE,
{
    let mut symbols = SymbolTable::new();
    let mut start: usize = 0;
    let mut line: usize = 0;
    let mut count: usize = 0;
    loop
        invariant_except_break
            count <= line <= start <= text.len(),
            labels_from(text@, 0, 0, 0, Symbols::empty()) == labels_from(
                text@,
                start as int,
                line as int,
                count as int,
                symbols@,
            ),
        invariant
            symbols.wf(),
        ensures
            labels_from(text@, 0, 0, 0, Symbols::empty()) == Ok::<Symbols, LoadError>(symbols@),
        decreases text.len() - start,
    {
        let end = line_end(text, start);
        let said = content(part(text, start, end));
        match declare(said.as_slice(), line, start, end, count, &mut symbols) {
            Err(error) => {
                return Err(error);
            },
            Ok(next) => {
                count = next;
            },
        }
        if end >= text.len() {
            break;
        }
        start = end + 1;
        line = line + 1;
    }
    let ghost labels = symbols@;
    let mut next_variable: u16 = FIRST_VARIABLE;
    let mut words: Vec<Instruction> = Vec::new();
    start = 0;
    line = 0;
    loop
        invariant
            line <= start <= text.len(),
            symbols.wf(),
            next_variable <= LAST_ADDRESS + 1,
            words.len() <= ROM_SIZE,
            assemble_spec(text@) == words_from(
                text@,
                start as int,
                line as int,
                Output { symbols: symbols@, next_variable: next_variable as int, words: words@ },
            ),
        decreases text.len() - start,
    {
        let end = line_end(text, start);
        let said = content(part(text, start, end));
        match emit(
            said.as_slice(),
            line,
            start,
            end,
            &mut symbols,
            &mut next_variable,
            &mut words,
        ) {
            Err(error) => {
                return Err(error);
            },
            Ok(()) => {},
        }
        if end >= text.len() {
            return Ok(words);
        }
        start = end + 1;
        line = line + 1;
    }
}

} // verus!
