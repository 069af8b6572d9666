use nand2tetris::assembler::assemble;
use nand2tetris::binary;
use nand2tetris::emulator::HardwareState;
use nand2tetris::error::{LoadError, Span};
use nand2tetris::hardware::{Hardware, Instruction};

fn words(text: &str) -> Result<Vec<u16>, LoadError> {
    assemble(text.as_bytes()).map(|program| program.iter().map(|i| i.raw).collect())
}

fn binary(lines: &[&str]) -> Vec<u16> {
    lines.iter().map(|line| u16::from_str_radix(line, 2).unwrap()).collect()
}

#[test]
fn assembles_the_addition_program() {
    let text = "// Computes R0 = 2 + 3\n\n@2\nD=A\n@3\nD=D+A\n@0\nM=D\n";
    assert_eq!(
        words(text),
        Ok(binary(&[
            "0000000000000010",
            "1110110000010000",
            "0000000000000011",
            "1110000010010000",
            "0000000000000000",
            "1110001100001000",
        ]))
    );
}

#[test]
fn assembles_labels_and_predefined_symbols() {
    let text = "\
   @R0
   D=M              // D = first number
   @R1
   D=D-M            // D = first number - second number
   @OUTPUT_FIRST
   D;JGT            // if D>0 (first is greater) goto output_first
   @R1
   D=M              // D = second number
   @OUTPUT_D
   0;JMP            // goto output_d
(OUTPUT_FIRST)
   @R0
   D=M              // D = first number
(OUTPUT_D)
   @R2
   M=D              // M[2] = D (greatest number)
(INFINITE_LOOP)
   @INFINITE_LOOP
   0;JMP            // infinite loop
";
    assert_eq!(
        words(text),
        Ok(binary(&[
            "0000000000000000",
            "1111110000010000",
            "0000000000000001",
            "1111010011010000",
            "0000000000001010",
            "1110001100000001",
            "0000000000000001",
            "1111110000010000",
            "0000000000001100",
            "1110101010000111",
            "0000000000000000",
            "1111110000010000",
            "0000000000000010",
            "1110001100001000",
            "0000000000001110",
            "1110101010000111",
        ]))
    );
}

#[test]
fn variables_get_the_next_free_cell_in_order_of_first_appearance() {
    let text = "@first\n@second\n@first\n@third\n@second\n@R5\n@third\n";
    assert_eq!(words(text), Ok(vec![16, 17, 16, 18, 17, 5, 18]));
}

#[test]
fn a_label_may_be_used_before_it_is_declared() {
    let text = "@END\n0;JMP\n@x\n(END)\n@END\n";
    assert_eq!(words(text), Ok(vec![3, 0xea87, 16, 3]));
}

#[test]
fn assembling_twice_gives_the_same_program() {
    let text = "@i\nM=1\n(LOOP)\n@i\nMD=M+1\n@LOOP\nD;JLT\n@sum\nM=D\n";
    let first = words(text);
    let second = words(text);
    assert!(first.is_ok());
    assert_eq!(first, second);
    assert_eq!(first.unwrap(), vec![16, 0xefc8, 16, 0xfdd8, 2, 0xe304, 17, 0xe308]);
}

#[test]
fn predefined_symbols_have_their_addresses() {
    let text = "@SP\n@LCL\n@ARG\n@THIS\n@THAT\n@R0\n@R9\n@R10\n@R15\n@SCREEN\n@KBD\n@R16\n";
    assert_eq!(
        words(text),
        Ok(vec![0, 1, 2, 3, 4, 0, 9, 10, 15, 16384, 24576, 16])
    );
}

#[test]
fn every_computation_mnemonic() {
    let cases = [
        ("0", "0101010"),
        ("1", "0111111"),
        ("-1", "0111010"),
        ("D", "0001100"),
        ("A", "0110000"),
        ("M", "1110000"),
        ("!D", "0001101"),
        ("!A", "0110001"),
        ("!M", "1110001"),
        ("-D", "0001111"),
        ("-A", "0110011"),
        ("-M", "1110011"),
        ("D+1", "0011111"),
        ("A+1", "0110111"),
        ("M+1", "1110111"),
        ("D-1", "0001110"),
        ("A-1", "0110010"),
        ("M-1", "1110010"),
        ("D+A", "0000010"),
        ("D+M", "1000010"),
        ("D-A", "0010011"),
        ("D-M", "1010011"),
        ("A-D", "0000111"),
        ("M-D", "1000111"),
        ("D&A", "0000000"),
        ("D&M", "1000000"),
        ("D|A", "0010101"),
        ("D|M", "1010101"),
    ];
    for (mnemonic, bits) in cases {
        let expected = u16::from_str_radix(&format!("111{}000000", bits), 2).unwrap();
        assert_eq!(words(mnemonic), Ok(vec![expected]), "{}", mnemonic);
    }
}

#[test]
fn every_destination_and_jump_mnemonic() {
    let dests = [
        ("M", 1),
        ("D", 2),
        ("MD", 3),
        ("DM", 3),
        ("A", 4),
        ("AM", 5),
        ("MA", 5),
        ("AD", 6),
        ("AMD", 7),
        ("ADM", 7),
        ("MDA", 7),
    ];
    for (dest, code) in dests {
        let text = format!("{}=0", dest);
        assert_eq!(words(&text), Ok(vec![0xea80 | (code << 3)]), "{}", dest);
    }
    let jumps = ["JGT", "JEQ", "JGE", "JLT", "JNE", "JLE", "JMP"];
    for (index, jump) in jumps.iter().enumerate() {
        let text = format!("D;{}", jump);
        assert_eq!(words(&text), Ok(vec![0xe300 | (index as u16 + 1)]), "{}", jump);
    }
    assert_eq!(words("AM=M-1;JNE"), Ok(vec![0xfca8 | 5]));
}

#[test]
fn blanks_and_comments_are_ignored() {
    let text = "  @ 2 // two\r\n\tD = A\r\n\r\n// nothing\n   \nM = D ; JMP // done";
    assert_eq!(words(text), Ok(vec![2, 0xec10, 0xe30f]));
    assert_eq!(words(""), Ok(vec![]));
    assert_eq!(words("\n\n// only a comment\n"), Ok(vec![]));
}

fn span(line: usize, start: usize, end: usize) -> Span {
    Span { line, start, end }
}

#[test]
fn a_line_that_is_no_instruction_fails_the_whole_text() {
    assert_eq!(words("@1\nD=Q\n@2\n"), Err(LoadError::Syntax(span(2, 3, 6))));
    assert_eq!(words("D+1=D"), Err(LoadError::Syntax(span(1, 0, 5))));
    assert_eq!(words("=D"), Err(LoadError::Syntax(span(1, 0, 2))));
    assert_eq!(words("D;"), Err(LoadError::Syntax(span(1, 0, 2))));
    assert_eq!(words("D;JXX"), Err(LoadError::Syntax(span(1, 0, 5))));
    assert_eq!(words("DD=1"), Err(LoadError::Syntax(span(1, 0, 4))));
    assert_eq!(words("X=1"), Err(LoadError::Syntax(span(1, 0, 3))));
    assert_eq!(words("@"), Err(LoadError::Syntax(span(1, 0, 1))));
    assert_eq!(words("@1x"), Err(LoadError::Syntax(span(1, 0, 3))));
    assert_eq!(words("@a-b"), Err(LoadError::Syntax(span(1, 0, 4))));
    assert_eq!(words("(LOOP"), Err(LoadError::Syntax(span(1, 0, 5))));
    assert_eq!(words("()"), Err(LoadError::Syntax(span(1, 0, 2))));
    assert_eq!(words("(1ST)"), Err(LoadError::Syntax(span(1, 0, 5))));
    assert_eq!(words("\n\n  hello  \n"), Err(LoadError::Syntax(span(3, 2, 11))));
}

#[test]
fn a_number_must_fit_fifteen_bits() {
    assert_eq!(words("@32767"), Ok(vec![32767]));
    assert_eq!(words("@000032767"), Ok(vec![32767]));
    assert_eq!(words("@32768"), Err(LoadError::OutOfRange(span(1, 0, 6))));
    assert_eq!(
        words("@99999999999999999999999999"),
        Err(LoadError::OutOfRange(span(1, 0, 27)))
    );
}

#[test]
fn a_symbol_cannot_be_declared_twice() {
    assert_eq!(
        words("(A)\n@1\n(B)\n(A)\n"),
        Err(LoadError::DuplicateSymbol(span(4, 11, 14)))
    );
    assert_eq!(words("(SP)\n"), Err(LoadError::DuplicateSymbol(span(1, 0, 4))));
    assert_eq!(words("(R12)\n"), Err(LoadError::DuplicateSymbol(span(1, 0, 5))));
}

#[test]
fn errors_of_the_first_pass_come_first() {
    assert_eq!(
        words("D=Q\n(X)\n(X)\n"),
        Err(LoadError::DuplicateSymbol(span(3, 8, 11)))
    );
}

#[test]
fn a_program_must_fit_the_instruction_memory() {
    let full = "D=A\n".repeat(32768);
    assert_eq!(words(&full).map(|program| program.len()), Ok(32768));
    let too_long = "D=A\n".repeat(32769);
    assert_eq!(words(&too_long), Err(LoadError::ProgramTooLong));
    let label_at_the_end = format!("{}(END)\n", full);
    assert_eq!(
        words(&label_at_the_end),
        Err(LoadError::OutOfRange(span(32769, 131072, 131077)))
    );
}

#[test]
fn variables_must_fit_the_data_memory() {
    let mut text = String::new();
    for i in 0..32752 {
        text.push_str(&format!("@v{}\n", i));
    }
    let program = words(&text).unwrap();
    assert_eq!(program[0], 16);
    assert_eq!(program[32751], 32767);
    let start = text.len();
    text.push_str("@last");
    assert_eq!(
        words(&text),
        Err(LoadError::OutOfMemory(span(32753, start, start + 5)))
    );
}

#[test]
fn reads_lines_of_binary_digits() {
    let text = "0000000000000010\r\n1110110000010000\n\n  0000000000000011 // three\n1111111111111111";
    assert_eq!(
        binary::parse(text.as_bytes()),
        Ok(vec![
            Instruction::new(2),
            Instruction::new(0xec10),
            Instruction::new(3),
            Instruction::new(0xffff),
        ])
    );
    assert_eq!(binary::parse(b""), Ok(vec![]));
    assert_eq!(binary::word(b"1000000000000001"), Some(0x8001));
    assert_eq!(binary::word(b"100000000000000"), None);
}

#[test]
fn refuses_malformed_binary_lines() {
    assert_eq!(
        binary::parse(b"0000000000000010\n000000000000001\n"),
        Err(LoadError::MalformedWord(span(2, 17, 32)))
    );
    assert_eq!(
        binary::parse(b"00000000000000102"),
        Err(LoadError::MalformedWord(span(1, 0, 17)))
    );
    assert_eq!(
        binary::parse(b"000000000000001x"),
        Err(LoadError::MalformedWord(span(1, 0, 16)))
    );
    let too_long = "0000000000000000\n".repeat(32769);
    assert_eq!(binary::parse(too_long.as_bytes()), Err(LoadError::ProgramTooLong));
}

#[test]
fn a_machine_from_assembly_text_runs_the_program() {
    let mut hardware = Hardware::from_hack_file_contents("@2\nD=A\n@3\nD=D+A\n@0\nM=D\n").unwrap();
    for _ in 0..3 {
        hardware.step();
    }
    assert_eq!(hardware.pc, 3);
    for _ in 0..3 {
        hardware.step();
    }
    assert_eq!(hardware.ram.get(0), 5);
    assert_eq!(hardware.pc, 6);
    assert!(hardware.breakpoints.is_empty());
}

#[test]
fn a_machine_from_binary_text_runs_the_program() {
    let text = "0000000000000010\n1110110000010000\n0000000000000011\n1110000010010000\n0000000000000000\n1110001100001000\n";
    let mut hardware = Hardware::from_file_contents(text).unwrap();
    assert!(!hardware.run(6));
    assert_eq!(hardware.ram.get(0), 5);
    assert_eq!(hardware.pc, 6);
}

#[test]
fn a_failed_load_gives_no_machine() {
    assert_eq!(
        Hardware::from_hack_file_contents("@1\nfoo bar\n").err(),
        Some(LoadError::Syntax(span(2, 3, 10)))
    );
    assert_eq!(
        Hardware::from_file_contents("01").err(),
        Some(LoadError::MalformedWord(span(1, 0, 2)))
    );
    assert_eq!(
        HardwareState::from_hack_file_contents("(X)\n(X)").err(),
        Some(LoadError::DuplicateSymbol(span(2, 4, 7)))
    );
    assert_eq!(
        HardwareState::from_file_contents("0101").err(),
        Some(LoadError::MalformedWord(span(1, 0, 4)))
    );
}

#[test]
fn text_beyond_ascii_is_read_as_bytes() {
    assert_eq!(words("@1 // caf\u{e9}\n"), Ok(vec![1]));
    assert_eq!(words("@caf\u{e9}\n"), Err(LoadError::Syntax(span(1, 0, 6))));
}

fn rom(state: &HardwareState, count: usize) -> Vec<u16> {
    state.hardware.rom[..count].iter().map(|instruction| instruction.raw).collect()
}

#[test]
fn machine_code_text_loads_word_for_word() {
    let state =
        HardwareState::from_file_contents("1000000000000000\n1111111111111111\n0111111111111111\n")
            .unwrap();
    assert_eq!(rom(&state, 4), vec![32768, 65535, 32767, 0]);
    assert_eq!((state.hardware.a, state.hardware.d, state.hardware.pc), (0, 0, 0));
    assert_eq!(
        HardwareState::from_file_contents("@5\n").err(),
        Some(LoadError::MalformedWord(span(1, 0, 2)))
    );
    assert_eq!(
        HardwareState::from_file_contents("0000000000000101\n000000000000010\n").err(),
        Some(LoadError::MalformedWord(span(2, 17, 32)))
    );
}

#[test]
fn hack_assembly_text_is_assembled() {
    let state = HardwareState::from_hack_file_contents("@foo\n@bar\n@foo\n@baz\n").unwrap();
    assert_eq!(rom(&state, 5), vec![16, 17, 16, 18, 0]);
    let state = HardwareState::from_hack_file_contents("@2\nD=A\n@3\nD=D+A\n@0\nM=D\n").unwrap();
    assert_eq!(rom(&state, 6), vec![2, 60432, 3, 57488, 0, 58120]);
    assert_eq!((state.hardware.a, state.hardware.d, state.hardware.pc), (0, 0, 0));
    assert_eq!(state.hardware.ram.get(0), 0);
    let state = HardwareState::from_hack_file_contents("@END\n@x\n(END)\n@END\n0;JMP\n").unwrap();
    assert_eq!(rom(&state, 4), vec![2, 16, 2, 60039]);
    let state = HardwareState::from_hack_file_contents(
        "@SCREEN\n@KBD\n@SP\n@LCL\n@ARG\n@THIS\n@THAT\n@R15\n",
    )
    .unwrap();
    assert_eq!(rom(&state, 8), vec![16384, 24576, 0, 1, 2, 3, 4, 15]);
    let state = HardwareState::from_hack_file_contents("@L\n(L)\n@L\n").unwrap();
    assert_eq!(rom(&state, 3), vec![1, 1, 0]);
    assert_eq!(
        HardwareState::from_hack_file_contents("@2\nD=Q+1\n").err(),
        Some(LoadError::Syntax(span(2, 3, 8)))
    );
    assert_eq!(
        HardwareState::from_hack_file_contents("1110110000010000\n").err(),
        Some(LoadError::Syntax(span(1, 0, 16)))
    );
}
