use nand2tetris::assembler::assemble;
use nand2tetris::assembler::listing::{push_binary, push_decimal, push_word};
use nand2tetris::hardware::Instruction;
use nand2tetris::vm::{Arithmetic, Command, Program, Segment};

fn text(raw: u16) -> String {
    String::from_utf8(Instruction::new(raw).text()).unwrap()
}

#[test]
fn address_instructions_are_written_with_their_number() {
    assert_eq!(text(0), "@0");
    assert_eq!(text(7), "@7");
    assert_eq!(text(10), "@10");
    assert_eq!(text(16384), "@16384");
    assert_eq!(text(32767), "@32767");
}

#[test]
fn compute_instructions_are_written_with_their_mnemonics() {
    assert_eq!(text(0xec10), "D=A");
    assert_eq!(text(0xe308), "M=D");
    assert_eq!(text(0xea87), "0;JMP");
    assert_eq!(text(0xe301), "D;JGT");
    assert_eq!(text(0xfdd8), "MD=M+1");
    assert_eq!(text(0xfca8 | 5), "AM=M-1;JNE");
    assert_eq!(text(0xefc8 | 0x30), "AMD=1");
    assert_eq!(text(0xe540), "D|A");
    assert_eq!(text(0xf000 | 6), "D&M;JLE");
}

#[test]
fn other_words_are_written_in_binary() {
    assert_eq!(text(0x8000), "1000000000000000");
    // spare bits not set
    assert_eq!(text(0x8c10), "1000110000010000");
    // a function code without a mnemonic
    assert_eq!(text(0xe040), "1110000001000000");
    // the memory operand named where the operation does not use it
    assert_eq!(text(0xf300), "1111001100000000");
}

#[test]
fn the_text_of_an_instruction_assembles_to_the_instruction() {
    for raw in 0..=u16::MAX {
        let decoded = Instruction::new(raw).decode();
        let canonical = match decoded {
            nand2tetris::hardware::Decoded::Address { .. } => true,
            nand2tetris::hardware::Decoded::Compute { spare, use_memory, function, .. } => {
                spare == 3
                    && nand2tetris::hardware::Operation::from_code(function)
                        .is_some_and(|operation| !use_memory || operation.uses_operand())
            }
        };
        let written = Instruction::new(raw).text();
        if canonical {
            assert_eq!(assemble(&written), Ok(vec![Instruction::new(raw)]), "{}", raw);
        } else {
            assert_eq!(
                nand2tetris::binary::parse(&written),
                Ok(vec![Instruction::new(raw)]),
                "{}",
                raw
            );
        }
    }
}

#[test]
fn numbers_and_words_are_put_behind_what_is_there() {
    let mut out = b"x".to_vec();
    push_decimal(&mut out, 0);
    push_decimal(&mut out, 65535);
    push_word(&mut out, "");
    push_word(&mut out, "-ab");
    push_binary(&mut out, 5, 4);
    push_binary(&mut out, 5, 0);
    assert_eq!(out, b"x065535-ab0101".to_vec());
}

#[test]
fn commands_are_written_as_they_are_read() {
    let source = "\
push constant 7
pop local 2
push argument 0
pop static 5
push this 1
pop that 32767
push pointer 1
pop temp 7
add
sub
neg
eq
gt
lt
and
or
not
label LOOP
goto LOOP
if-goto LOOP
function Main.f 3
call Main.f 0
return
";
    let mut program = Program::new();
    assert_eq!(program.add_file("Main", source), Ok(()));
    let written: Vec<String> = program
        .all_commands()
        .iter()
        .map(|command| String::from_utf8(command.text(program.names())).unwrap())
        .collect();
    let lines: Vec<&str> = source.lines().collect();
    assert_eq!(written, lines);
}

#[test]
fn a_name_that_is_not_in_the_table_is_left_out() {
    let program = Program::new();
    assert_eq!(Command::Label(3).text(program.names()), b"label ".to_vec());
    assert_eq!(Command::Call(0, 2).text(program.names()), b"call  2".to_vec());
    assert_eq!(
        Command::Push(Segment::Constant, 1).text(program.names()),
        b"push constant 1".to_vec()
    );
    assert_eq!(Command::Arithmetic(Arithmetic::Not).text(program.names()), b"not".to_vec());
}

#[test]
fn the_listing_of_a_program_assembles_to_the_program() {
    let mut program = Program::new();
    let source = "function Main.main 2\npush constant 7\ncall Main.main 1\nlt\nreturn\n";
    assert_eq!(program.add_file("Main", source), Ok(()));
    let translation = nand2tetris::vm::translate(&program).unwrap();
    let text = nand2tetris::assembler::round_trip::list(&translation.instructions);
    assert_eq!(assemble(&text), Ok(translation.instructions));
    let lines = String::from_utf8(text).unwrap();
    assert!(lines.starts_with("@256\nD=A\n@0\nM=D\n@6\n0;JMP\n@0\nAM=M+1\nA=A-1\nM=0\n"));
    assert!(lines.ends_with("@14\nA=M\n0;JMP\n"));
    assert_eq!(nand2tetris::assembler::round_trip::list(&vec![]), Vec::<u8>::new());
}
