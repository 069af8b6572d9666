//! Reading the text of a stack-machine file.
//!
//! Each line holds at most one command; everything from `//` on is a
//! comment. A command is one to three words, separated by blanks:
//!
//! * `add`, `sub`, `neg`, `eq`, `gt`, `lt`, `and`, `or`, `not`, `return`;
//! * `label`, `goto` or `if-goto` and a name;
//! * `push` or `pop`, a segment and an index;
//! * `function` or `call`, a name and a number.

use vstd::prelude::*;
use super::command::{Arithmetic, Command, Segment, LARGEST, STATIC_CELLS};
use super::names::{number_of, with_name, Names};
use crate::assembler::symbols::{is_symbol, is_symbol_spec};
use crate::error::{LoadError, Span};
use crate::text::{
    is_blank, is_blank_spec, number, number_spec, part, spells, spells_spec, Number,
};

verus! {

/// A word of a line: the positions where it starts and ends.
#[derive(Clone, Copy, Debug, PartialEq, Eq, Structural)]
pub struct Token {
    pub start: usize,
    pub end: usize,
}

/// The position of the first byte at or after `from` that is blank
/// (`blank`) or is not (`!blank`), or the length of `code`.
pub open spec fn scan_spec(code: Seq<u8>, from: int, blank: bool) -> int
    decreases code.len() - from,
{
    if from < 0 || from >= code.len() {
        code.len() as int
    } else if is_blank_spec(code[from]) == blank {
        from
    } else {
        scan_spec(code, from + 1, blank)
    }
}

/// A scan ends at or behind its start, at a byte of the kind looked for or at the end.
pub proof fn scan_bounds(code: Seq<u8>, from: int, blank: bool)
    requires
        0 <= from <= code.len(),
    ensures
        from <= scan_spec(code, from, blank) <= code.len(),
        scan_spec(code, from, blank) < code.len() ==> is_blank_spec(
            code[scan_spec(code, from, blank)],
        ) == blank,
    decreases code.len() - from,
{
    if from < code.len() && is_blank_spec(code[from]) != blank {
        scan_bounds(code, from + 1, blank);
    }
}

fn scan(code: &[u8], from: usize, blank: bool) -> (at: usize)
    requires
        from <= code.len(),
    ensures
        at == scan_spec(code@, from as int, blank),
        from <= at <= code.len(),
        at < code.len() ==> is_blank_spec(code@[at as int]) == blank,
{
    let mut at = from;
    while at < code.len() && is_blank(code[at]) != blank
        invariant
            from <= at <= code.len(),
            scan_spec(code@, from as int, blank) == scan_spec(code@, at as int, blank),
        decreases code.len() - at,
    {
        at += 1;
    }
    at
}

/// The words of `code` from position `from` on, put behind `found`.
pub open spec fn tokens_from(code: Seq<u8>, from: int, found: Seq<Token>) -> Seq<Token>
    decreases code.len() - from,
{
    let start = scan_spec(code, from, false);
    let end = scan_spec(code, start, true);
    if from < 0 || start >= code.len() {
        found
    } else {
        proof {
            scan_bounds(code, from, false);
            scan_bounds(code, start, true);
        }
        tokens_from(code, end, found.push(Token { start: start as usize, end: end as usize }))
    }
}

/// The words of `code`.
pub open spec fn tokens_spec(code: Seq<u8>) -> Seq<Token> {
    tokens_from(code, 0, Seq::empty())
}

/// Whether `tokens` are words of `code`: one behind the other, none empty.
pub open spec fn tokens_wf(code: Seq<u8>, tokens: Seq<Token>) -> bool {
    forall|i: int| 0 <= i < tokens.len() ==> (#[trigger] tokens[i]).start < tokens[i].end <= code.len()
}

/// The words of `code`.
pub fn tokens(code: &[u8]) -> (found: Vec<Token>)
    ensures
        found@ == tokens_spec(code@),
        tokens_wf(code@, found@),
{
    let mut found: Vec<Token> = Vec::new();
    let mut from: usize = 0;
    loop
        invariant
            from <= code.len(),
            tokens_spec(code@) == tokens_from(code@, from as int, found@),
            tokens_wf(code@, found@),
        decreases code.len() - from,
    {
        let start = scan(code, from, false);
        if start >= code.len() {
            return found;
        }
        let end = scan(code, start, true);
        found.push(Token { start, end });
        from = end;
    }
}

/// The command that the single word `word` is.
pub open spec fn simple_spec(word: Seq<u8>) -> Option<Command> {
    if spells_spec(word, "add") {
        Some(Command::Arithmetic(Arithmetic::Add))
    } else if spells_spec(word, "sub") {
        Some(Command::Arithmetic(Arithmetic::Sub))
    } else if spells_spec(word, "neg") {
        Some(Command::Arithmetic(Arithmetic::Neg))
    } else if spells_spec(word, "eq") {
        Some(Command::Arithmetic(Arithmetic::Eq))
    } else if spells_spec(word, "gt") {
        Some(Command::Arithmetic(Arithmetic::Gt))
    } else if spells_spec(word, "lt") {
        Some(Command::Arithmetic(Arithmetic::Lt))
    } else if spells_spec(word, "and") {
        Some(Command::Arithmetic(Arithmetic::And))
    } else if spells_spec(word, "or") {
        Some(Command::Arithmetic(Arithmetic::Or))
    } else if spells_spec(word, "not") {
        Some(Command::Arithmetic(Arithmetic::Not))
    } else if spells_spec(word, "return") {
        Some(Command::Return)
    } else {
        None
    }
}

fn simple(word: &[u8]) -> (out: Option<Command>)
    ensures
        out == simple_spec(word@),
{
    if spells(word, "add") {
        Some(Command::Arithmetic(Arithmetic::Add))
    } else if spells(word, "sub") {
        Some(Command::Arithmetic(Arithmetic::Sub))
    } else if spells(word, "neg") {
        Some(Command::Arithmetic(Arithmetic::Neg))
    } else if spells(word, "eq") {
        Some(Command::Arithmetic(Arithmetic::Eq))
    } else if spells(word, "gt") {
        Some(Command::Arithmetic(Arithmetic::Gt))
    } else if spells(word, "lt") {
        Some(Command::Arithmetic(Arithmetic::Lt))
    } else if spells(word, "and") {
        Some(Command::Arithmetic(Arithmetic::And))
    } else if spells(word, "or") {
        Some(Command::Arithmetic(Arithmetic::Or))
    } else if spells(word, "not") {
        Some(Command::Arithmetic(Arithmetic::Not))
    } else if spells(word, "return") {
        Some(Command::Return)
    } else {
        None
    }
}

/// The segment that `word` names.
pub open spec fn segment_spec(word: Seq<u8>) -> Option<Segment> {
    if spells_spec(word, "argument") {
        Some(Segment::Argument)
    } else if spells_spec(word, "local") {
        Some(Segment::Local)
    } else if spells_spec(word, "static") {
        Some(Segment::Static)
    } else if spells_spec(word, "constant") {
        Some(Segment::Constant)
    } else if spells_spec(word, "this") {
        Some(Segment::This)
    } else if spells_spec(word, "that") {
        Some(Segment::That)
    } else if spells_spec(word, "pointer") {
        Some(Segment::Pointer)
    } else if spells_spec(word, "temp") {
        Some(Segment::Temp)
    } else {
        None
    }
}

fn segment(word: &[u8]) -> (out: Option<Segment>)
    ensures
        out == segment_spec(word@),
{
    if spells(word, "argument") {
        Some(Segment::Argument)
    } else if spells(word, "local") {
        Some(Segment::Local)
    } else if spells(word, "static") {
        Some(Segment::Static)
    } else if spells(word, "constant") {
        Some(Segment::Constant)
    } else if spells(word, "this") {
        Some(Segment::This)
    } else if spells(word, "that") {
        Some(Segment::That)
    } else if spells(word, "pointer") {
        Some(Segment::Pointer)
    } else if spells(word, "temp") {
        Some(Segment::Temp)
    } else {
        None
    }
}

/// What stands before a command when a file is read: the names that the
/// program knows, and the number of static cells that the files before this
/// one have taken.
pub struct Context {
    pub names: Seq<Seq<u8>>,
    pub statics_taken: u16,
}

/// The command of two words `keyword` and `name`, and the names known after it.
pub open spec fn jump_spec(keyword: Seq<u8>, name: Seq<u8>, span: Span, names: Seq<Seq<u8>>) -> Result<
    (Command, Seq<Seq<u8>>),
    LoadError,
> {
    let number = number_of(names, name) as usize;
    if !is_symbol_spec(name) {
        Err(LoadError::Syntax(span))
    } else if spells_spec(keyword, "label") {
        Ok((Command::Label(number), with_name(names, name)))
    } else if spells_spec(keyword, "goto") {
        Ok((Command::Goto(number), with_name(names, name)))
    } else if spells_spec(keyword, "if-goto") {
        Ok((Command::IfGoto(number), with_name(names, name)))
    } else {
        Err(LoadError::Syntax(span))
    }
}

/// The command `push` or `pop` (`keyword`) on cell `index` of `segment`. The
/// index must be a number within the segment; a static cell must also lie
/// within the cells that the files before have left; nothing is popped into
/// a constant.
pub open spec fn access_spec(
    keyword: Seq<u8>,
    segment: Seq<u8>,
    index: Seq<u8>,
    span: Span,
    statics_taken: u16,
) -> Result<Command, LoadError> {
    let push = spells_spec(keyword, "push");
    if segment_spec(segment).is_none() || (!push && segment_spec(segment) == Some(Segment::Constant)) {
        Err(LoadError::Syntax(span))
    } else {
        let segment = segment_spec(segment).unwrap();
        match number_spec(index, segment.last_index_spec()) {
            Number::Malformed => Err(LoadError::Syntax(span)),
            Number::TooLarge => Err(LoadError::OutOfRange(span)),
            Number::Value(index) => if segment == Segment::Static && index + statics_taken
                >= STATIC_CELLS {
                Err(LoadError::OutOfMemory(span))
            } else if push {
                Ok(Command::Push(segment, index))
            } else {
                Ok(Command::Pop(segment, index))
            },
        }
    }
}

/// The command `function` or `call` (`keyword`) with a name and a count,
/// and the names known after it.
pub open spec fn routine_spec(
    keyword: Seq<u8>,
    name: Seq<u8>,
    count: Seq<u8>,
    span: Span,
    names: Seq<Seq<u8>>,
) -> Result<(Command, Seq<Seq<u8>>), LoadError> {
    let declares = spells_spec(keyword, "function");
    let limit = if declares { LARGEST } else { (LARGEST - 5) as u16 };
    let number = number_of(names, name) as usize;
    if !is_symbol_spec(name) {
        Err(LoadError::Syntax(span))
    } else {
        match number_spec(count, limit) {
            Number::Malformed => Err(LoadError::Syntax(span)),
            Number::TooLarge => Err(LoadError::OutOfRange(span)),
            Number::Value(count) => if declares {
                Ok((Command::Function(number, count), with_name(names, name)))
            } else {
                Ok((Command::Call(number, count), with_name(names, name)))
            },
        }
    }
}

/// The part of `code` that `token` marks.
pub open spec fn word_spec(code: Seq<u8>, token: Token) -> Seq<u8> {
    code.subrange(token.start as int, token.end as int)
}

/// The command that the words `tokens` of `code` make, and the names known
/// after it.
pub open spec fn command_spec(code: Seq<u8>, tokens: Seq<Token>, span: Span, context: Context) -> Result<
    (Command, Seq<Seq<u8>>),
    LoadError,
> {
    if tokens.len() == 1 {
        match simple_spec(word_spec(code, tokens[0])) {
            Some(command) => Ok((command, context.names)),
            None => Err(LoadError::Syntax(span)),
        }
    } else if tokens.len() == 2 {
        jump_spec(word_spec(code, tokens[0]), word_spec(code, tokens[1]), span, context.names)
    } else if tokens.len() == 3 && (spells_spec(word_spec(code, tokens[0]), "push") || spells_spec(
        word_spec(code, tokens[0]),
        "pop",
    )) {
        match access_spec(
            word_spec(code, tokens[0]),
            word_spec(code, tokens[1]),
            word_spec(code, tokens[2]),
            span,
            context.statics_taken,
        ) {
            Ok(command) => Ok((command, context.names)),
            Err(error) => Err(error),
        }
    } else if tokens.len() == 3 && (spells_spec(word_spec(code, tokens[0]), "function")
        || spells_spec(word_spec(code, tokens[0]), "call")) {
        routine_spec(
            word_spec(code, tokens[0]),
            word_spec(code, tokens[1]),
            word_spec(code, tokens[2]),
            span,
            context.names,
        )
    } else {
        Err(LoadError::Syntax(span))
    }
}

fn word<'a>(code: &'a [u8], token: &Token) -> (out: &'a [u8])
    requires
        token.start <= token.end <= code.len(),
    ensures
        out@ == word_spec(code@, *token),
{
    part(code, token.start, token.end)
}

/// Reads the words `tokens` of `code` as a command. Names that the command
/// mentions are put into `names`.
pub fn command(code: &[u8], tokens: &Vec<Token>, span: Span, names: &mut Names, statics_taken: u16) -> (result:
    Result<Command, LoadError>)
    requires
        tokens_wf(code@, tokens@),
        statics_taken <= STATIC_CELLS,
    ensures
        command_spec(code@, tokens@, span, Context { names: old(names)@, statics_taken }) == match result {
            Ok(command) => Ok::<(Command, Seq<Seq<u8>>), LoadError>((command, final(names)@)),
            Err(error) => Err::<(Command, Seq<Seq<u8>>), LoadError>(error),
        },
        result is Err ==> final(names)@ == old(names)@,
        result matches Ok(command) ==> command.wf() && (command.name() matches Some(name) ==> name
            < final(names)@.len()) && command.statics() + statics_taken <= STATIC_CELLS,
        old(names)@.len() <= final(names)@.len(),
        final(names)@.take(old(names)@.len() as int) == old(names)@,
{
    assert(names@.take(names@.len() as int) == names@);
    if tokens.len() == 1 {
        return match simple(word(code, &tokens[0])) {
            Some(command) => Ok(command),
            None => Err(LoadError::Syntax(span)),
        };
    }
    if tokens.len() == 2 {
        let keyword = word(code, &tokens[0]);
        let name = word(code, &tokens[1]);
        if !is_symbol(name) {
            return Err(LoadError::Syntax(span));
        }
        let label = spells(keyword, "label");
        let goto = spells(keyword, "goto");
        let if_goto = spells(keyword, "if-goto");
        if !label && !goto && !if_goto {
            return Err(LoadError::Syntax(span));
        }
        let number = names.intern(name);
        return Ok(
            if label {
                Command::Label(number)
            } else if goto {
                Command::Goto(number)
            } else {
                Command::IfGoto(number)
            },
        );
    }
    if tokens.len() != 3 {
        return Err(LoadError::Syntax(span));
    }
    let keyword = word(code, &tokens[0]);
    let second = word(code, &tokens[1]);
    let third = word(code, &tokens[2]);
    let push = spells(keyword, "push");
    if push || spells(keyword, "pop") {
        let segment = match segment(second) {
            Some(segment) => segment,
            None => {
                return Err(LoadError::Syntax(span));
            },
        };
        if !push && matches!(segment, Segment::Constant) {
            return Err(LoadError::Syntax(span));
        }
        return match number(third, segment.last_index()) {
            Number::Malformed => Err(LoadError::Syntax(span)),
            Number::TooLarge => Err(LoadError::OutOfRange(span)),
            Number::Value(index) => {
                if matches!(segment, Segment::Static) && index >= STATIC_CELLS - statics_taken {
                    Err(LoadError::OutOfMemory(span))
                } else if push {
                    Ok(Command::Push(segment, index))
                } else {
                    Ok(Command::Pop(segment, index))
                }
            },
        };
    }
    let declares = spells(keyword, "function");
    if declares || spells(keyword, "call") {
        if !is_symbol(second) {
            return Err(LoadError::Syntax(span));
        }
        let limit = if declares { LARGEST } else { LARGEST - 5 };
        return match number(third, limit) {
            Number::Malformed => Err(LoadError::Syntax(span)),
            Number::TooLarge => Err(LoadError::OutOfRange(span)),
            Number::Value(count) => {
                let number = names.intern(second);
                if declares {
                    Ok(Command::Function(number, count))
                } else {
                    Ok(Command::Call(number, count))
                }
            },
        };
    }
    Err(LoadError::Syntax(span))
}

} // verus!
