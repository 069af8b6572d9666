//! The way from a command to its text and back.

use vstd::prelude::*;
use vstd::string::StringSliceAdditionalSpecFns;
use vstd::utf8::{is_ascii_chars, is_ascii_chars_encode_utf8};
use super::command::{Arithmetic, Command, Segment, STATIC_CELLS};
use super::listing::{arithmetic_text, command_text, segment_text, three_words};
use super::names::{number_of, position_from, with_name};
use super::parser::{
    access_spec, command_spec, scan_spec, segment_spec, simple_spec, tokens_from, tokens_spec,
    word_spec, Context, Token,
};
use crate::assembler::listing::{decimal_text, decimal_text_reads_back};
use crate::assembler::symbols::{is_symbol_byte_spec, is_symbol_spec};
use crate::error::{LoadError, Span};
use crate::text::{is_blank_spec, is_digit_spec};

verus! {

/// The bytes of the words for the arithmetic commands.
proof fn arithmetic_bytes()
    ensures
        "add".spec_bytes() == seq![97u8, 100u8, 100u8],
        "sub".spec_bytes() == seq![115u8, 117u8, 98u8],
        "neg".spec_bytes() == seq![110u8, 101u8, 103u8],
        "eq".spec_bytes() == seq![101u8, 113u8],
        "gt".spec_bytes() == seq![103u8, 116u8],
        "lt".spec_bytes() == seq![108u8, 116u8],
        "and".spec_bytes() == seq![97u8, 110u8, 100u8],
        "or".spec_bytes() == seq![111u8, 114u8],
        "not".spec_bytes() == seq![110u8, 111u8, 116u8],
{
    reveal_strlit("add");
    assert(is_ascii_chars("add"@));
    is_ascii_chars_encode_utf8("add"@);
    assert("add".spec_bytes() =~= seq![97u8, 100u8, 100u8]);
    reveal_strlit("sub");
    assert(is_ascii_chars("sub"@));
    is_ascii_chars_encode_utf8("sub"@);
    assert("sub".spec_bytes() =~= seq![115u8, 117u8, 98u8]);
    reveal_strlit("neg");
    assert(is_ascii_chars("neg"@));
    is_ascii_chars_encode_utf8("neg"@);
    assert("neg".spec_bytes() =~= seq![110u8, 101u8, 103u8]);
    reveal_strlit("eq");
    assert(is_ascii_chars("eq"@));
    is_ascii_chars_encode_utf8("eq"@);
    assert("eq".spec_bytes() =~= seq![101u8, 113u8]);
    reveal_strlit("gt");
    assert(is_ascii_chars("gt"@));
    is_ascii_chars_encode_utf8("gt"@);
    assert("gt".spec_bytes() =~= seq![103u8, 116u8]);
    reveal_strlit("lt");
    assert(is_ascii_chars("lt"@));
    is_ascii_chars_encode_utf8("lt"@);
    assert("lt".spec_bytes() =~= seq![108u8, 116u8]);
    reveal_strlit("and");
    assert(is_ascii_chars("and"@));
    is_ascii_chars_encode_utf8("and"@);
    assert("and".spec_bytes() =~= seq![97u8, 110u8, 100u8]);
    reveal_strlit("or");
    assert(is_ascii_chars("or"@));
    is_ascii_chars_encode_utf8("or"@);
    assert("or".spec_bytes() =~= seq![111u8, 114u8]);
    reveal_strlit("not");
    assert(is_ascii_chars("not"@));
    is_ascii_chars_encode_utf8("not"@);
    assert("not".spec_bytes() =~= seq![110u8, 111u8, 116u8]);
}

/// The bytes of the words for the segments.
proof fn segment_bytes()
    ensures
        "argument".spec_bytes() == seq![97u8, 114u8, 103u8, 117u8, 109u8, 101u8, 110u8, 116u8],
        "local".spec_bytes() == seq![108u8, 111u8, 99u8, 97u8, 108u8],
        "static".spec_bytes() == seq![115u8, 116u8, 97u8, 116u8, 105u8, 99u8],
        "constant".spec_bytes() == seq![99u8, 111u8, 110u8, 115u8, 116u8, 97u8, 110u8, 116u8],
        "this".spec_bytes() == seq![116u8, 104u8, 105u8, 115u8],
        "that".spec_bytes() == seq![116u8, 104u8, 97u8, 116u8],
        "pointer".spec_bytes() == seq![112u8, 111u8, 105u8, 110u8, 116u8, 101u8, 114u8],
        "temp".spec_bytes() == seq![116u8, 101u8, 109u8, 112u8],
{
    reveal_strlit("argument");
    assert(is_ascii_chars("argument"@));
    is_ascii_chars_encode_utf8("argument"@);
    assert("argument".spec_bytes() =~= seq![97u8, 114u8, 103u8, 117u8, 109u8, 101u8, 110u8, 116u8]);
    reveal_strlit("local");
    assert(is_ascii_chars("local"@));
    is_ascii_chars_encode_utf8("local"@);
    assert("local".spec_bytes() =~= seq![108u8, 111u8, 99u8, 97u8, 108u8]);
    reveal_strlit("static");
    assert(is_ascii_chars("static"@));
    is_ascii_chars_encode_utf8("static"@);
    assert("static".spec_bytes() =~= seq![115u8, 116u8, 97u8, 116u8, 105u8, 99u8]);
    reveal_strlit("constant");
    assert(is_ascii_chars("constant"@));
    is_ascii_chars_encode_utf8("constant"@);
    assert("constant".spec_bytes() =~= seq![99u8, 111u8, 110u8, 115u8, 116u8, 97u8, 110u8, 116u8]);
    reveal_strlit("this");
    assert(is_ascii_chars("this"@));
    is_ascii_chars_encode_utf8("this"@);
    assert("this".spec_bytes() =~= seq![116u8, 104u8, 105u8, 115u8]);
    reveal_strlit("that");
    assert(is_ascii_chars("that"@));
    is_ascii_chars_encode_utf8("that"@);
    assert("that".spec_bytes() =~= seq![116u8, 104u8, 97u8, 116u8]);
    reveal_strlit("pointer");
    assert(is_ascii_chars("pointer"@));
    is_ascii_chars_encode_utf8("pointer"@);
    assert("pointer".spec_bytes() =~= seq![112u8, 111u8, 105u8, 110u8, 116u8, 101u8, 114u8]);
    reveal_strlit("temp");
    assert(is_ascii_chars("temp"@));
    is_ascii_chars_encode_utf8("temp"@);
    assert("temp".spec_bytes() =~= seq![116u8, 101u8, 109u8, 112u8]);
}

/// The bytes of the other words of the language, and of the blank.
proof fn keyword_bytes()
    ensures
        "push".spec_bytes() == seq![112u8, 117u8, 115u8, 104u8],
        "pop".spec_bytes() == seq![112u8, 111u8, 112u8],
        "label".spec_bytes() == seq![108u8, 97u8, 98u8, 101u8, 108u8],
        "goto".spec_bytes() == seq![103u8, 111u8, 116u8, 111u8],
        "if-goto".spec_bytes() == seq![105u8, 102u8, 45u8, 103u8, 111u8, 116u8, 111u8],
        "function".spec_bytes() == seq![102u8, 117u8, 110u8, 99u8, 116u8, 105u8, 111u8, 110u8],
        "call".spec_bytes() == seq![99u8, 97u8, 108u8, 108u8],
        "return".spec_bytes() == seq![114u8, 101u8, 116u8, 117u8, 114u8, 110u8],
        " ".spec_bytes() == seq![32u8],
{
    reveal_strlit("push");
    assert(is_ascii_chars("push"@));
    is_ascii_chars_encode_utf8("push"@);
    assert("push".spec_bytes() =~= seq![112u8, 117u8, 115u8, 104u8]);
    reveal_strlit("pop");
    assert(is_ascii_chars("pop"@));
    is_ascii_chars_encode_utf8("pop"@);
    assert("pop".spec_bytes() =~= seq![112u8, 111u8, 112u8]);
    reveal_strlit("label");
    assert(is_ascii_chars("label"@));
    is_ascii_chars_encode_utf8("label"@);
    assert("label".spec_bytes() =~= seq![108u8, 97u8, 98u8, 101u8, 108u8]);
    reveal_strlit("goto");
    assert(is_ascii_chars("goto"@));
    is_ascii_chars_encode_utf8("goto"@);
    assert("goto".spec_bytes() =~= seq![103u8, 111u8, 116u8, 111u8]);
    reveal_strlit("if-goto");
    assert(is_ascii_chars("if-goto"@));
    is_ascii_chars_encode_utf8("if-goto"@);
    assert("if-goto".spec_bytes() =~= seq![105u8, 102u8, 45u8, 103u8, 111u8, 116u8, 111u8]);
    reveal_strlit("function");
    assert(is_ascii_chars("function"@));
    is_ascii_chars_encode_utf8("function"@);
    assert("function".spec_bytes() =~= seq![102u8, 117u8, 110u8, 99u8, 116u8, 105u8, 111u8, 110u8]);
    reveal_strlit("call");
    assert(is_ascii_chars("call"@));
    is_ascii_chars_encode_utf8("call"@);
    assert("call".spec_bytes() =~= seq![99u8, 97u8, 108u8, 108u8]);
    reveal_strlit("return");
    assert(is_ascii_chars("return"@));
    is_ascii_chars_encode_utf8("return"@);
    assert("return".spec_bytes() =~= seq![114u8, 101u8, 116u8, 117u8, 114u8, 110u8]);
    reveal_strlit(" ");
    assert(is_ascii_chars(" "@));
    is_ascii_chars_encode_utf8(" "@);
    assert(" ".spec_bytes() =~= seq![32u8]);
}

/// Whether `bytes` is a word: not empty and without blanks.
pub open spec fn is_word(bytes: Seq<u8>) -> bool {
    bytes.len() > 0 && forall|i: int| 0 <= i < bytes.len() ==> !is_blank_spec(#[trigger] bytes[i])
}

/// A symbol is a word.
proof fn symbol_is_word(name: Seq<u8>)
    requires
        is_symbol_spec(name),
    ensures
        is_word(name),
{
    assert forall|i: int| 0 <= i < name.len() implies !is_blank_spec(#[trigger] name[i]) by {
        assert(is_symbol_byte_spec(name[i]));
    }
}

/// A number in decimal digits is a word.
proof fn number_is_word(value: u16)
    ensures
        is_word(decimal_text(value)),
{
    decimal_text_reads_back(value, value);
    assert forall|i: int| 0 <= i < decimal_text(value).len() implies !is_blank_spec(
        #[trigger] decimal_text(value)[i],
    ) by {
        assert(is_digit_spec(decimal_text(value)[i]));
    }
}

/// The word for a segment is a word that reads back as the segment.
proof fn segment_reads_back(segment: Segment)
    ensures
        is_word(segment_text(segment)),
        segment_spec(segment_text(segment)) == Some(segment),
{
    segment_bytes();
    let text = segment_text(segment);
    assert(text.len() >= 4);
    assert(text[0] != 0 && text[1] != 0 && text[2] != 0 && text[3] != 0);
}

/// The word for an arithmetic command is a word that reads back as the command.
proof fn arithmetic_reads_back(operation: Arithmetic)
    ensures
        is_word(arithmetic_text(operation)),
        arithmetic_text(operation).len() <= 3,
        simple_spec(arithmetic_text(operation)) == Some(Command::Arithmetic(operation)),
{
    arithmetic_bytes();
    keyword_bytes();
    let text = arithmetic_text(operation);
    assert(2 <= text.len() <= 3);
    assert(text[0] != 0 && text[1] != 0);
}

/// Looking for a blank from within a word finds the end of the word.
proof fn scan_passes_word(code: Seq<u8>, start: int, word: Seq<u8>, from: int)
    requires
        0 <= start,
        0 <= from <= word.len(),
        start + word.len() <= code.len(),
        code.subrange(start, start + word.len()) == word,
        is_word(word),
        start + word.len() < code.len() ==> is_blank_spec(code[start + word.len()]),
    ensures
        scan_spec(code, start + from, true) == start + word.len(),
    decreases word.len() - from,
{
    if from < word.len() {
        assert(code[start + from] == code.subrange(start, start + word.len())[from]);
        assert(!is_blank_spec(word[from]));
        scan_passes_word(code, start, word, from + 1);
    }
}

/// The words of a text that ends with a word, from the start of that word
/// on: that word.
proof fn last_word_is_found(code: Seq<u8>, start: int, word: Seq<u8>, found: Seq<Token>)
    requires
        0 <= start,
        start + word.len() == code.len(),
        code.subrange(start, code.len() as int) == word,
        is_word(word),
    ensures
        tokens_from(code, start, found) == found.push(
            Token { start: start as usize, end: code.len() as usize },
        ),
{
    assert(code[start] == code.subrange(start, start + word.len())[0]);
    assert(!is_blank_spec(word[0]));
    scan_passes_word(code, start, word, 0);
    reveal_with_fuel(tokens_from, 2);
}

/// The words of a text from the start of a word on that a blank and
/// another word follow: that word, and the words from the next word on.
proof fn next_word_is_found(code: Seq<u8>, start: int, word: Seq<u8>, found: Seq<Token>)
    requires
        0 <= start,
        start + word.len() + 1 < code.len(),
        code.subrange(start, start + word.len()) == word,
        is_word(word),
        is_blank_spec(code[start + word.len()]),
        !is_blank_spec(code[start + word.len() + 1]),
    ensures
        tokens_from(code, start, found) == tokens_from(
            code,
            start + word.len() + 1,
            found.push(Token { start: start as usize, end: (start + word.len()) as usize }),
        ),
{
    assert(code[start] == code.subrange(start, start + word.len())[0]);
    assert(!is_blank_spec(word[0]));
    scan_passes_word(code, start, word, 0);
    reveal_with_fuel(scan_spec, 3);
    let end = start + word.len();
    let token = Token { start: start as usize, end: end as usize };
    assert(tokens_from(code, start, found) == tokens_from(code, end, found.push(token)));
    assert(scan_spec(code, end, false) == end + 1);
    assert(scan_spec(code, end + 1, false) == end + 1);
}

/// Two words with a blank between them are found as two words.
proof fn two_words_are_found(first: Seq<u8>, second: Seq<u8>)
    requires
        is_word(first),
        is_word(second),
        first.len() + second.len() < usize::MAX,
    ensures
        ({
            let code = first + seq![32u8] + second;
            let tokens = tokens_spec(code);
            &&& tokens.len() == 2
            &&& word_spec(code, tokens[0]) == first
            &&& word_spec(code, tokens[1]) == second
        }),
{
    let code = first + seq![32u8] + second;
    let found = Seq::<Token>::empty();
    assert(code.subrange(0, first.len() as int) =~= first);
    assert(code[first.len() as int] == 32u8);
    assert(code[first.len() as int + 1] == second[0]);
    next_word_is_found(code, 0, first, found);
    let start = first.len() as int + 1;
    assert(code.subrange(start, code.len() as int) =~= second);
    last_word_is_found(code, start, second, found.push(Token { start: 0, end: first.len() as usize }));
}

/// Three words with blanks between them are found as three words.
proof fn three_words_are_found(first: Seq<u8>, second: Seq<u8>, third: Seq<u8>)
    requires
        is_word(first),
        is_word(second),
        is_word(third),
        first.len() + second.len() + third.len() < usize::MAX - 1,
    ensures
        ({
            let code = first + seq![32u8] + second + seq![32u8] + third;
            let tokens = tokens_spec(code);
            &&& tokens.len() == 3
            &&& word_spec(code, tokens[0]) == first
            &&& word_spec(code, tokens[1]) == second
            &&& word_spec(code, tokens[2]) == third
        }),
{
    let code = first + seq![32u8] + second + seq![32u8] + third;
    let found = Seq::<Token>::empty();
    assert(code.subrange(0, first.len() as int) =~= first);
    assert(code[first.len() as int] == 32u8);
    assert(code[first.len() as int + 1] == second[0]);
    next_word_is_found(code, 0, first, found);
    let start = first.len() as int + 1;
    let one = found.push(Token { start: 0, end: first.len() as usize });
    assert(code.subrange(start, start + second.len()) =~= second);
    assert(code[start + second.len()] == 32u8);
    assert(code[start + second.len() + 1] == third[0]);
    next_word_is_found(code, start, second, one);
    let last = start + second.len() as int + 1;
    let two = one.push(Token { start: start as usize, end: (start + second.len()) as usize });
    assert(code.subrange(last, code.len() as int) =~= third);
    last_word_is_found(code, last, third, two);
}

/// One word is found as one word.
proof fn one_word_is_found(word: Seq<u8>)
    requires
        is_word(word),
        word.len() <= usize::MAX,
    ensures
        tokens_spec(word).len() == 1,
        word_spec(word, tokens_spec(word)[0]) == word,
{
    assert(word.subrange(0, word.len() as int) =~= word);
    last_word_is_found(word, 0, word, Seq::<Token>::empty());
}

/// Whether the name that `command` mentions is a symbol and stands in
/// `names` at the place of its number, and nowhere before.
pub open spec fn names_the_name(command: Command, names: Seq<Seq<u8>>) -> bool {
    command.name() matches Some(name) ==> name < names.len() && is_symbol_spec(names[name as int])
        && position_from(names, names[name as int], 0) == Some(name as int)
}

/// The words of a push or a pop read back as the command.
proof fn access_words_read_back(push: bool, segment: Segment, index: u16, span: Span, statics_taken: u16)
    requires
        index <= segment.last_index_spec(),
        !push ==> segment != Segment::Constant,
        segment == Segment::Static ==> index + 1 + statics_taken <= STATIC_CELLS,
    ensures
        access_spec(
            if push { "push".spec_bytes() } else { "pop".spec_bytes() },
            segment_text(segment),
            decimal_text(index),
            span,
            statics_taken,
        ) == Ok::<Command, LoadError>(
            if push {
                Command::Push(segment, index)
            } else {
                Command::Pop(segment, index)
            },
        ),
{
    keyword_bytes();
    segment_reads_back(segment);
    decimal_text_reads_back(index, segment.last_index_spec());
}

/// The text of a push or a pop reads back as the command.
proof fn access_text_reads_back(
    push: bool,
    segment: Segment,
    index: u16,
    names: Seq<Seq<u8>>,
    span: Span,
    statics_taken: u16,
)
    requires
        index <= segment.last_index_spec(),
        !push ==> segment != Segment::Constant,
        segment == Segment::Static ==> index + 1 + statics_taken <= STATIC_CELLS,
        three_words(
            if push { "push".spec_bytes() } else { "pop".spec_bytes() },
            segment_text(segment),
            index,
        ).len() < usize::MAX - 1,
    ensures
        ({
            let code = three_words(
                if push { "push".spec_bytes() } else { "pop".spec_bytes() },
                segment_text(segment),
                index,
            );
            command_spec(code, tokens_spec(code), span, Context { names, statics_taken }) == Ok::<
                (Command, Seq<Seq<u8>>),
                LoadError,
            >((if push { Command::Push(segment, index) } else { Command::Pop(segment, index) }, names))
        }),
{
    keyword_bytes();
    let keyword = if push { "push".spec_bytes() } else { "pop".spec_bytes() };
    segment_reads_back(segment);
    number_is_word(index);
    assert(is_word(keyword)) by {
        assert(keyword[0] != 0);
    }
    three_words_are_found(keyword, segment_text(segment), decimal_text(index));
    access_words_read_back(push, segment, index, span, statics_taken);
}

/// A name that stands in the table at the place of its number is known
/// by that number, and the table stays as it is.
proof fn name_is_known(names: Seq<Seq<u8>>, name: usize)
    requires
        name < names.len(),
        position_from(names, names[name as int], 0) == Some(name as int),
    ensures
        number_of(names, names[name as int]) == name,
        with_name(names, names[name as int]) == names,
{
}

/// The text of a function declaration or a call reads back as the command.
proof fn routine_text_reads_back(
    declares: bool,
    name: usize,
    count: u16,
    names: Seq<Seq<u8>>,
    span: Span,
    statics_taken: u16,
)
    requires
        name < names.len(),
        is_symbol_spec(names[name as int]),
        position_from(names, names[name as int], 0) == Some(name as int),
        count <= (if declares { 32767int } else { 32762int }),
        three_words(
            if declares { "function".spec_bytes() } else { "call".spec_bytes() },
            names[name as int],
            count,
        ).len() < usize::MAX - 1,
    ensures
        ({
            let code = three_words(
                if declares { "function".spec_bytes() } else { "call".spec_bytes() },
                names[name as int],
                count,
            );
            command_spec(code, tokens_spec(code), span, Context { names, statics_taken }) == Ok::<
                (Command, Seq<Seq<u8>>),
                LoadError,
            >((if declares { Command::Function(name, count) } else { Command::Call(name, count) }, names))
        }),
{
    keyword_bytes();
    let keyword = if declares { "function".spec_bytes() } else { "call".spec_bytes() };
    symbol_is_word(names[name as int]);
    number_is_word(count);
    name_is_known(names, name);
    decimal_text_reads_back(count, if declares { 32767u16 } else { 32762u16 });
    assert(is_word(keyword)) by {
        assert(keyword[0] != 0);
    }
    three_words_are_found(keyword, names[name as int], decimal_text(count));
}

/// The text of a label declaration or a jump reads back as the command.
proof fn jump_text_reads_back(
    command: Command,
    name: usize,
    names: Seq<Seq<u8>>,
    span: Span,
    statics_taken: u16,
)
    requires
        command == Command::Label(name) || command == Command::Goto(name) || command
            == Command::IfGoto(name),
        name < names.len(),
        is_symbol_spec(names[name as int]),
        position_from(names, names[name as int], 0) == Some(name as int),
        command_text(command, names).len() < usize::MAX - 1,
    ensures
        command_spec(
            command_text(command, names),
            tokens_spec(command_text(command, names)),
            span,
            Context { names, statics_taken },
        ) == Ok::<(Command, Seq<Seq<u8>>), LoadError>((command, names)),
{
    keyword_bytes();
    let keyword = match command {
        Command::Label(_) => "label".spec_bytes(),
        Command::Goto(_) => "goto".spec_bytes(),
        _ => "if-goto".spec_bytes(),
    };
    symbol_is_word(names[name as int]);
    name_is_known(names, name);
    assert(is_word(keyword)) by {
        assert(keyword[0] != 0);
    }
    two_words_are_found(keyword, names[name as int]);
}

/// The word `return` is a word that reads back as the command.
proof fn return_reads_back()
    ensures
        is_word("return".spec_bytes()),
        "return".spec_bytes().len() == 6,
        simple_spec("return".spec_bytes()) == Some(Command::Return),
{
    arithmetic_bytes();
    keyword_bytes();
    let text = "return".spec_bytes();
    assert(text.len() == 6);
    assert(text[0] != 0 && text[1] != 0 && text[2] != 0 && text[3] != 0 && text[4] != 0 && text[5]
        != 0);
}

/// The text of a command of one word reads back as the command.
proof fn simple_text_reads_back(command: Command, names: Seq<Seq<u8>>, span: Span, statics_taken: u16)
    requires
        command is Arithmetic || command is Return,
    ensures
        command_spec(
            command_text(command, names),
            tokens_spec(command_text(command, names)),
            span,
            Context { names, statics_taken },
        ) == Ok::<(Command, Seq<Seq<u8>>), LoadError>((command, names)),
{
    let code = command_text(command, names);
    match command {
        Command::Arithmetic(operation) => {
            arithmetic_reads_back(operation);
        },
        _ => {
            return_reads_back();
        },
    }
    one_word_is_found(code);
}

/// The text of a command reads back as the command, and teaches no new
/// name. The command must keep to its limits, name a name that is in the
/// table, and reach no static cell beyond those that are left.
pub proof fn command_text_reads_back(
    command: Command,
    names: Seq<Seq<u8>>,
    span: Span,
    statics_taken: u16,
)
    requires
        command.wf(),
        names_the_name(command, names),
        command.statics() + statics_taken <= STATIC_CELLS,
        command_text(command, names).len() < usize::MAX - 1,
    ensures
        command_spec(
            command_text(command, names),
            tokens_spec(command_text(command, names)),
            span,
            Context { names, statics_taken },
        ) == Ok::<(Command, Seq<Seq<u8>>), LoadError>((command, names)),
{
    match command {
        Command::Push(segment, index) => {
            access_text_reads_back(true, segment, index, names, span, statics_taken);
        },
        Command::Pop(segment, index) => {
            access_text_reads_back(false, segment, index, names, span, statics_taken);
        },
        Command::Label(name) => {
            jump_text_reads_back(command, name, names, span, statics_taken);
        },
        Command::Goto(name) => {
            jump_text_reads_back(command, name, names, span, statics_taken);
        },
        Command::IfGoto(name) => {
            jump_text_reads_back(command, name, names, span, statics_taken);
        },
        Command::Function(name, locals) => {
            routine_text_reads_back(true, name, locals, names, span, statics_taken);
        },
        Command::Call(name, arguments) => {
            routine_text_reads_back(false, name, arguments, names, span, statics_taken);
        },
        _ => {
            simple_text_reads_back(command, names, span, statics_taken);
        },
    }
}

} // verus!
