use nand2tetris::assembler::symbols::{is_symbol, predefined, SymbolTable};
use nand2tetris::assembler::syntax::{comp, compute, dest, find, jump, Computation};
use nand2tetris::error::Span;
use nand2tetris::hardware::{Decoded, Destinations, Jump, Operation};
use nand2tetris::text::{
    bytes_equal, comment_start, content, is_blank, is_digit, line_end, number, part, spells,
    Number,
};
use nand2tetris::vm::names::Names;
use nand2tetris::vm::parser::{tokens, Token};

#[test]
fn lines_end_at_line_feeds() {
    let text = b"ab\ncd\n\nef";
    assert_eq!(line_end(text, 0), 2);
    assert_eq!(line_end(text, 1), 2);
    assert_eq!(line_end(text, 2), 2);
    assert_eq!(line_end(text, 3), 5);
    assert_eq!(line_end(text, 6), 6);
    assert_eq!(line_end(text, 7), 9);
    assert_eq!(line_end(text, 9), 9);
    assert_eq!(line_end(b"", 0), 0);
    assert_eq!(part(text, 3, 5), b"cd");
}

#[test]
fn comments_start_at_two_slashes() {
    assert_eq!(comment_start(b"ab // c // d"), 3);
    assert_eq!(comment_start(b"//"), 0);
    assert_eq!(comment_start(b"a/b"), 3);
    assert_eq!(comment_start(b"a/"), 2);
    assert_eq!(comment_start(b"/"), 1);
    assert_eq!(comment_start(b""), 0);
    assert_eq!(comment_start(b"a / / b"), 7);
}

#[test]
fn content_is_what_stands_before_the_comment_without_blanks() {
    assert_eq!(content(b"  D = M + 1 ; JGT  // jump\r"), b"D=M+1;JGT".to_vec());
    assert_eq!(content(b" \t\r "), Vec::<u8>::new());
    assert_eq!(content(b"// all comment"), Vec::<u8>::new());
    assert_eq!(content(b"a/b"), b"a/b".to_vec());
    for byte in 0..=255u8 {
        assert_eq!(is_blank(byte), byte == b' ' || (9..=13).contains(&byte));
        assert_eq!(is_digit(byte), byte.is_ascii_digit());
    }
}

#[test]
fn numbers_are_read_up_to_a_limit() {
    assert_eq!(number(b"0", 0), Number::Value(0));
    assert_eq!(number(b"007", 7), Number::Value(7));
    assert_eq!(number(b"8", 7), Number::TooLarge);
    assert_eq!(number(b"65535", 65535), Number::Value(65535));
    assert_eq!(number(b"65536", 65535), Number::TooLarge);
    assert_eq!(number(b"123456789012345678901234567890", 65535), Number::TooLarge);
    assert_eq!(number(b"", 7), Number::Malformed);
    assert_eq!(number(b"-1", 7), Number::Malformed);
    assert_eq!(number(b"1a", 7), Number::Malformed);
    assert_eq!(number(b"99999999x", 7), Number::Malformed);
}

#[test]
fn words_are_compared_byte_by_byte() {
    assert!(bytes_equal(b"abc", b"abc"));
    assert!(!bytes_equal(b"abc", b"abd"));
    assert!(!bytes_equal(b"abc", b"ab"));
    assert!(bytes_equal(b"", b""));
    assert!(spells(b"JMP", "JMP"));
    assert!(!spells(b"JMP", "JM"));
    assert!(!spells(b"jmp", "JMP"));
}

#[test]
fn symbols_are_made_of_letters_digits_and_four_signs() {
    for name in ["a", "LOOP", "_x", "a.b", "$1", "x:y", "R16", "sys.init$if_true0"] {
        assert!(is_symbol(name.as_bytes()), "{}", name);
    }
    for name in ["", "1a", "a-b", "a b", "a+", "(a)", "@a", "caf\u{e9}"] {
        assert!(!is_symbol(name.as_bytes()), "{}", name);
    }
    assert_eq!(predefined(b"SP"), Some(0));
    assert_eq!(predefined(b"R15"), Some(15));
    assert_eq!(predefined(b"R16"), None);
    assert_eq!(predefined(b"R01"), None);
    assert_eq!(predefined(b"KBD"), Some(24576));
    assert_eq!(predefined(b"kbd"), None);
}

#[test]
fn the_symbol_table_keeps_what_is_defined() {
    let mut table = SymbolTable::new();
    assert_eq!(table.lookup(b"x"), None);
    assert_eq!(table.resolve(b"x"), None);
    assert_eq!(table.resolve(b"SCREEN"), Some(16384));
    table.define(b"x".to_vec(), 16);
    table.define(b"LOOP".to_vec(), 4);
    assert_eq!(table.lookup(b"x"), Some(16));
    assert_eq!(table.resolve(b"LOOP"), Some(4));
    assert_eq!(table.lookup(b"SCREEN"), None);
    assert_eq!(table.lookup(b"y"), None);
}

#[test]
fn the_fields_of_a_compute_instruction() {
    assert_eq!(find(b"D=M;JMP", b'='), 1);
    assert_eq!(find(b"D=M;JMP", b';'), 3);
    assert_eq!(find(b"D=M;JMP", b'x'), 7);
    assert_eq!(dest(b"AMD"), Some(Destinations { a: true, d: true, m: true }));
    assert_eq!(dest(b"DA"), Some(Destinations { a: true, d: true, m: false }));
    assert_eq!(dest(b""), None);
    assert_eq!(dest(b"AA"), None);
    assert_eq!(dest(b"AMDA"), None);
    assert_eq!(dest(b"X"), None);
    assert_eq!(
        comp(b"M-D"),
        Some(Computation { use_memory: true, operation: Operation::YMinusD })
    );
    assert_eq!(comp(b"D-M"), Some(Computation { use_memory: true, operation: Operation::DMinusY }));
    assert_eq!(comp(b"A+D"), None);
    assert_eq!(comp(b""), None);
    assert_eq!(jump(b"JLE"), Some(Jump::LessEqual));
    assert_eq!(jump(b""), None);
    assert_eq!(
        compute(b"A=D|M;JNE"),
        Some(Decoded::Compute {
            spare: 3,
            use_memory: true,
            function: Operation::DOrY.code(),
            dest: Destinations { a: true, d: false, m: false },
            jump: Jump::NotEqual,
        })
    );
    assert_eq!(compute(b"D=M=A"), None);
    assert_eq!(compute(b"D;JMP;JMP"), None);
    assert_eq!(compute(b"0;JMP=D"), None);
}

#[test]
fn the_words_of_a_line() {
    assert_eq!(
        tokens(b"  push\t constant  7 "),
        vec![
            Token { start: 2, end: 6 },
            Token { start: 8, end: 16 },
            Token { start: 18, end: 19 }
        ]
    );
    assert_eq!(tokens(b""), vec![]);
    assert_eq!(tokens(b" \t "), vec![]);
    assert_eq!(tokens(b"x"), vec![Token { start: 0, end: 1 }]);
}

#[test]
fn names_are_known_by_their_position() {
    let mut names = Names::new();
    assert_eq!(names.len(), 0);
    assert_eq!(names.position(b"a"), None);
    assert_eq!(names.intern(b"a"), 0);
    assert_eq!(names.intern(b"b"), 1);
    assert_eq!(names.intern(b"a"), 0);
    assert_eq!(names.len(), 2);
    assert_eq!(names.get(1), b"b");
    assert_eq!(names.position(b"b"), Some(1));
    names.truncate(1);
    assert_eq!(names.position(b"b"), None);
    assert_eq!(names.intern(b"c"), 1);
}

#[test]
fn the_span_of_a_line() {
    assert_eq!(Span::of_line(0, 0, 4), Span { line: 1, start: 0, end: 4 });
    assert_eq!(Span::of_line(2, 10, 11), Span { line: 3, start: 10, end: 11 });
}
