//! Commands written out as text: the way back from the parser.

use vstd::prelude::*;
use vstd::string::StringSliceAdditionalSpecFns;
use super::command::{Arithmetic, Command, Segment};
use super::names::Names;
use crate::assembler::listing::{decimal_text, push_decimal, push_word};

verus! {

/// The word for `segment`.
pub open spec fn segment_text(segment: Segment) -> Seq<u8> {
    match segment {
        Segment::Argument => "argument".spec_bytes(),
        Segment::Local => "local".spec_bytes(),
        Segment::Static => "static".spec_bytes(),
        Segment::Constant => "constant".spec_bytes(),
        Segment::This => "this".spec_bytes(),
        Segment::That => "that".spec_bytes(),
        Segment::Pointer => "pointer".spec_bytes(),
        Segment::Temp => "temp".spec_bytes(),
    }
}

fn segment_word(segment: Segment) -> (word: &'static str)
    ensures
        word.spec_bytes() == segment_text(segment),
{
    match segment {
        Segment::Argument => "argument",
        Segment::Local => "local",
        Segment::Static => "static",
        Segment::Constant => "constant",
        Segment::This => "this",
        Segment::That => "that",
        Segment::Pointer => "pointer",
        Segment::Temp => "temp",
    }
}

/// The word for `operation`.
pub open spec fn arithmetic_text(operation: Arithmetic) -> Seq<u8> {
    match operation {
        Arithmetic::Add => "add".spec_bytes(),
        Arithmetic::Sub => "sub".spec_bytes(),
        Arithmetic::Neg => "neg".spec_bytes(),
        Arithmetic::Eq => "eq".spec_bytes(),
        Arithmetic::Gt => "gt".spec_bytes(),
        Arithmetic::Lt => "lt".spec_bytes(),
        Arithmetic::And => "and".spec_bytes(),
        Arithmetic::Or => "or".spec_bytes(),
        Arithmetic::Not => "not".spec_bytes(),
    }
}

fn arithmetic_word(operation: Arithmetic) -> (word: &'static str)
    ensures
        word.spec_bytes() == arithmetic_text(operation),
{
    match operation {
        Arithmetic::Add => "add",
        Arithmetic::Sub => "sub",
        Arithmetic::Neg => "neg",
        Arithmetic::Eq => "eq",
        Arithmetic::Gt => "gt",
        Arithmetic::Lt => "lt",
        Arithmetic::And => "and",
        Arithmetic::Or => "or",
        Arithmetic::Not => "not",
    }
}

/// The name with number `name` in `names`; nothing, if there is none.
pub open spec fn name_text(names: Seq<Seq<u8>>, name: usize) -> Seq<u8> {
    if name < names.len() {
        names[name as int]
    } else {
        Seq::empty()
    }
}

/// The words `keyword`, `middle` and the number `count`, a blank between each two.
pub open spec fn three_words(keyword: Seq<u8>, middle: Seq<u8>, count: u16) -> Seq<u8> {
    keyword + " ".spec_bytes() + middle + " ".spec_bytes() + decimal_text(count)
}

/// The command `command` as text, with the names of labels and functions
/// taken from `names`.
pub open spec fn command_text(command: Command, names: Seq<Seq<u8>>) -> Seq<u8> {
    match command {
        Command::Push(segment, index) => three_words(
            "push".spec_bytes(),
            segment_text(segment),
            index,
        ),
        Command::Pop(segment, index) => three_words("pop".spec_bytes(), segment_text(segment), index),
        Command::Arithmetic(operation) => arithmetic_text(operation),
        Command::Label(name) => "label".spec_bytes() + " ".spec_bytes() + name_text(names, name),
        Command::Goto(name) => "goto".spec_bytes() + " ".spec_bytes() + name_text(names, name),
        Command::IfGoto(name) => "if-goto".spec_bytes() + " ".spec_bytes() + name_text(names, name),
        Command::Function(name, locals) => three_words(
            "function".spec_bytes(),
            name_text(names, name),
            locals,
        ),
        Command::Call(name, arguments) => three_words(
            "call".spec_bytes(),
            name_text(names, name),
            arguments,
        ),
        Command::Return => "return".spec_bytes(),
    }
}

fn push_name(out: &mut Vec<u8>, names: &Names, name: usize)
    ensures
        final(out)@ == old(out)@ + name_text(names@, name),
{
    if name < names.len() {
        let bytes = names.get(name);
        let mut i: usize = 0;
        while i < bytes.len()
            invariant
                i <= bytes.len(),
                name < names@.len(),
                bytes@ == names@[name as int],
                out@ == old(out)@ + bytes@.take(i as int),
            decreases bytes.len() - i,
        {
            out.push(bytes[i]);
            i += 1;
            assert(out@ =~= old(out)@ + bytes@.take(i as int));
        }
        assert(bytes@.take(bytes.len() as int) == bytes@);
    } else {
        assert(out@ =~= old(out)@ + Seq::<u8>::empty());
    }
}

impl Command {
    /// The command as text, with the names of labels and functions taken
    /// from `names`.
    pub fn text(&self, names: &Names) -> (out: Vec<u8>)
        ensures
            out@ == command_text(*self, names@),
    {
        let mut out: Vec<u8> = Vec::new();
        match *self {
            Command::Push(segment, index) => {
                push_word(&mut out, "push");
                push_word(&mut out, " ");
                push_word(&mut out, segment_word(segment));
                push_word(&mut out, " ");
                push_decimal(&mut out, index);
            },
            Command::Pop(segment, index) => {
                push_word(&mut out, "pop");
                push_word(&mut out, " ");
                push_word(&mut out, segment_word(segment));
                push_word(&mut out, " ");
                push_decimal(&mut out, index);
            },
            Command::Arithmetic(operation) => {
                push_word(&mut out, arithmetic_word(operation));
            },
            Command::Label(name) => {
                push_word(&mut out, "label");
                push_word(&mut out, " ");
                push_name(&mut out, names, name);
            },
            Command::Goto(name) => {
                push_word(&mut out, "goto");
                push_word(&mut out, " ");
                push_name(&mut out, names, name);
            },
            Command::IfGoto(name) => {
                push_word(&mut out, "if-goto");
                push_word(&mut out, " ");
                push_name(&mut out, names, name);
            },
            Command::Function(name, locals) => {
                push_word(&mut out, "function");
                push_word(&mut out, " ");
                push_name(&mut out, names, name);
                push_word(&mut out, " ");
                push_decimal(&mut out, locals);
            },
            Command::Call(name, arguments) => {
                push_word(&mut out, "call");
                push_word(&mut out, " ");
                push_name(&mut out, names, name);
                push_word(&mut out, " ");
                push_decimal(&mut out, arguments);
            },
            Command::Return => {
                push_word(&mut out, "return");
            },
        }
        assert(out@ =~= command_text(*self, names@));
        out
    }
}

} // verus!
