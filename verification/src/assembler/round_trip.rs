//! The way from a program to its listing and back.
//!
//! A program whose instructions can all be written in mnemonics is listed
//! one instruction to a line, and assembling the listing gives the program.

use vstd::prelude::*;
use super::listing::{
    compute_text_starts_with_a_field, has_mnemonics, instruction_text, instruction_text_is_plain,
    is_plain,
};
use super::symbols::{Symbols, FIRST_VARIABLE};
use super::{
    assemble_spec, declare_spec, emit_spec, instruction_text_assembles_back, labels_from,
    words_from, Output, OPEN,
};
use crate::error::{LoadError, Span};
use crate::hardware::alu::Operation;
use crate::hardware::cpu::ROM_SIZE;
use crate::hardware::instruction::{decode_word, Decoded, Instruction};
use crate::text::{
    comment_start_spec, content_spec, is_blank_spec, line_end_spec, squeeze, LINE_FEED, SLASH,
};

verus! {

/// Whether the instruction can be written in mnemonics.
pub open spec fn is_listable(instruction: Instruction) -> bool {
    decode_word(instruction.raw) matches Decoded::Compute { spare, use_memory, function, .. }
        ==> has_mnemonics(spare, use_memory, function)
}

/// The text that lists `program`: the text of each instruction, and a line
/// feed behind it.
pub open spec fn listing(program: Seq<Instruction>) -> Seq<u8>
    decreases program.len(),
{
    if program.len() == 0 {
        Seq::empty()
    } else {
        instruction_text(program[0].raw) + seq![LINE_FEED] + listing(program.drop_first())
    }
}

/// Writes the text that lists `program`.
pub fn list(program: &Vec<Instruction>) -> (text: Vec<u8>)
    ensures
        text@ == listing(program@),
{
    let mut text: Vec<u8> = Vec::new();
    let mut index: usize = 0;
    assert(program@.skip(0) =~= program@);
    assert(text@ + listing(program@) =~= listing(program@));
    while index < program.len()
        invariant
            index <= program.len(),
            text@ + listing(program@.skip(index as int)) == listing(program@),
        decreases program.len() - index,
    {
        let ghost before = text@;
        let ghost rest = program@.skip(index as int);
        let mut line = program[index].text();
        text.append(&mut line);
        text.push(LINE_FEED);
        index += 1;
        proof {
            assert(rest.drop_first() =~= program@.skip(index as int));
            assert(text@ + listing(program@.skip(index as int)) =~= before + listing(rest));
        }
    }
    assert(program@.skip(program.len() as int) =~= Seq::<Instruction>::empty());
    assert(text@ + Seq::<u8>::empty() =~= text@);
    text
}

/// A line without blanks and `/` has no comment.
proof fn plain_line_has_no_comment(line: Seq<u8>, from: int)
    requires
        is_plain(line),
        0 <= from <= line.len(),
    ensures
        comment_start_spec(line, from) == line.len(),
    decreases line.len() - from,
{
    if from + 1 < line.len() {
        assert(line[from] != SLASH);
        plain_line_has_no_comment(line, from + 1);
    }
}

/// Bytes without blanks stay as they are when the blanks are removed.
proof fn plain_bytes_stay(bytes: Seq<u8>)
    requires
        is_plain(bytes),
    ensures
        squeeze(bytes) == bytes,
    decreases bytes.len(),
{
    if bytes.len() > 0 {
        assert(!is_blank_spec(bytes[bytes.len() - 1]));
        plain_bytes_stay(bytes.drop_last());
        assert(bytes.drop_last().push(bytes.last()) =~= bytes);
    }
}

/// A line without blanks and `/` says what it holds.
proof fn plain_line_says_itself(line: Seq<u8>)
    requires
        is_plain(line),
    ensures
        content_spec(line) == line,
{
    plain_line_has_no_comment(line, 0);
    assert(line.take(line.len() as int) == line);
    plain_bytes_stay(line);
}

/// A line of bytes that are no line feeds ends where a line feed follows.
proof fn line_ends_behind(text: Seq<u8>, start: int, line: Seq<u8>, from: int)
    requires
        0 <= start,
        0 <= from <= line.len(),
        start + line.len() < text.len(),
        text.subrange(start, start + line.len()) == line,
        text[start + line.len()] == LINE_FEED,
        is_plain(line),
    ensures
        line_end_spec(text, start + from) == start + line.len(),
    decreases line.len() - from,
{
    if from < line.len() {
        assert(text[start + from] == text.subrange(start, start + line.len())[from]);
        assert(!is_blank_spec(line[from]));
        line_ends_behind(text, start, line, from + 1);
    }
}

/// What a text that ends in the listing of `rest` looks like from the start
/// of that listing on, if `rest` is not empty: the text of the first
/// instruction, a line feed, and the listing of the others.
proof fn listing_starts_with_a_line(text: Seq<u8>, start: int, rest: Seq<Instruction>)
    requires
        0 <= start <= text.len(),
        text.skip(start) == listing(rest),
        rest.len() > 0,
        is_listable(rest[0]),
    ensures
        ({
            let line = instruction_text(rest[0].raw);
            let end = start + line.len();
            &&& end < text.len()
            &&& line_end_spec(text, start) == end
            &&& text.subrange(start, end) == line
            &&& content_spec(line) == line
            &&& text.skip(end + 1) == listing(rest.drop_first())
        }),
{
    let line = instruction_text(rest[0].raw);
    let end = start + line.len();
    let others = listing(rest.drop_first());
    instruction_text_is_plain(rest[0].raw);
    assert(listing(rest) == line + seq![LINE_FEED] + others);
    assert(text.len() == start + listing(rest).len());
    assert(text.subrange(start, end) =~= line) by {
        assert forall|i: int| 0 <= i < line.len() implies text.subrange(start, end)[i] == line[i] by {
            assert(text.skip(start)[i] == text[start + i]);
        }
    }
    assert(text[end] == LINE_FEED) by {
        assert(text.skip(start)[line.len() as int] == text[start + line.len()]);
    }
    line_ends_behind(text, start, line, 0);
    plain_line_says_itself(line);
    assert(text.skip(end + 1) =~= others) by {
        assert forall|i: int| 0 <= i < others.len() implies text.skip(end + 1)[i] == others[i] by {
            assert(text.skip(start)[line.len() + 1 + i] == text[start + line.len() + 1 + i]);
        }
    }
}

/// The first pass over a listing finds no label.
proof fn listing_declares_nothing(
    text: Seq<u8>,
    start: int,
    line: int,
    count: int,
    symbols: Symbols,
    rest: Seq<Instruction>,
)
    requires
        0 <= start <= text.len(),
        text.skip(start) == listing(rest),
        forall|i: int| 0 <= i < rest.len() ==> is_listable(#[trigger] rest[i]),
    ensures
        labels_from(text, start, line, count, symbols) == Ok::<Symbols, LoadError>(symbols),
    decreases rest.len(),
{
    reveal(declare_spec);
    if rest.len() == 0 {
        assert(listing(rest).len() == 0);
        assert(text.skip(start).len() == text.len() - start);
        assert(text.subrange(start, start) =~= Seq::<u8>::empty());
        empty_line_says_nothing();
    } else {
        let text_of_first = instruction_text(rest[0].raw);
        let end = start + text_of_first.len();
        assert(is_listable(rest[0]));
        listing_starts_with_a_line(text, start, rest);
        starts_like_an_instruction(rest[0].raw);
        assert forall|i: int| 0 <= i < rest.drop_first().len() implies is_listable(
            #[trigger] rest.drop_first()[i],
        ) by {
            assert(rest.drop_first()[i] == rest[i + 1]);
        }
        listing_declares_nothing(text, end + 1, line + 1, count + 1, symbols, rest.drop_first());
    }
}

/// An empty line says nothing.
proof fn empty_line_says_nothing()
    ensures
        content_spec(Seq::<u8>::empty()) == Seq::<u8>::empty(),
{
    let empty = Seq::<u8>::empty();
    assert(empty.take(comment_start_spec(empty, 0)) =~= empty);
}

/// The text of an instruction does not start like a label.
proof fn starts_like_an_instruction(raw: u16)
    requires
        is_listable(Instruction { raw }),
    ensures
        instruction_text(raw).len() > 0,
        instruction_text(raw)[0] != OPEN,
{
    instruction_text_is_plain(raw);
    match decode_word(raw) {
        Decoded::Address { value } => {
            super::at_sign_is_one_byte();
        },
        Decoded::Compute { spare, use_memory, function, dest, jump } => {
            compute_text_starts_with_a_field(
                use_memory,
                Operation::from_code_spec(function).unwrap(),
                dest,
                jump,
            );
        },
    }
}

/// The second pass over a listing writes the instructions that are listed.
proof fn listing_emits_the_program(
    text: Seq<u8>,
    start: int,
    line: int,
    output: Output,
    rest: Seq<Instruction>,
)
    requires
        0 <= start <= text.len(),
        text.skip(start) == listing(rest),
        forall|i: int| 0 <= i < rest.len() ==> is_listable(#[trigger] rest[i]),
        output.words.len() + rest.len() <= ROM_SIZE,
    ensures
        words_from(text, start, line, output) == Ok::<Seq<Instruction>, LoadError>(
            output.words + rest,
        ),
    decreases rest.len(),
{
    if rest.len() == 0 {
        reveal(emit_spec);
        assert(listing(rest).len() == 0);
        assert(text.skip(start).len() == text.len() - start);
        assert(text.subrange(start, start) =~= Seq::<u8>::empty());
        empty_line_says_nothing();
        assert(output.words + rest =~= output.words);
    } else {
        let text_of_first = instruction_text(rest[0].raw);
        let end = start + text_of_first.len();
        let span = Span { line: (line + 1) as usize, start: start as usize, end: end as usize };
        assert(is_listable(rest[0]));
        listing_starts_with_a_line(text, start, rest);
        instruction_text_assembles_back(rest[0].raw, span, output);
        assert forall|i: int| 0 <= i < rest.drop_first().len() implies is_listable(
            #[trigger] rest.drop_first()[i],
        ) by {
            assert(rest.drop_first()[i] == rest[i + 1]);
        }
        listing_emits_the_program(
            text,
            end + 1,
            line + 1,
            output.emit(rest[0].raw),
            rest.drop_first(),
        );
        assert(output.emit(rest[0].raw).words + rest.drop_first() =~= output.words + rest);
    }
}

/// Assembling the listing of a program gives the program.
pub proof fn listing_assembles_back(program: Seq<Instruction>)
    requires
        program.len() <= ROM_SIZE,
        forall|i: int| 0 <= i < program.len() ==> is_listable(#[trigger] program[i]),
    ensures
        assemble_spec(listing(program)) == Ok::<Seq<Instruction>, LoadError>(program),
{
    let text = listing(program);
    assert(text.skip(0) =~= text);
    listing_declares_nothing(text, 0, 0, 0, Symbols::empty(), program);
    let output = Output {
        symbols: Symbols::empty(),
        next_variable: FIRST_VARIABLE as int,
        words: Seq::empty(),
    };
    listing_emits_the_program(text, 0, 0, output, program);
    assert(output.words + program =~= program);
}

} // verus!
