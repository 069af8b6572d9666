use nand2tetris::assembler::assemble;
use nand2tetris::emulator::{CommonState, VmState, VmError};
use nand2tetris::error::{LoadError, Span};
use nand2tetris::hardware::{Breakpoint, BreakpointVar, Instruction, Word};
use nand2tetris::vm::{
    translate, Arithmetic, Command, File, LinkError, Program, RunState, Segment,
};

fn files(list: &[(&str, &str)]) -> Vec<(String, String)> {
    list.iter().map(|(name, text)| (name.to_string(), text.to_string())).collect()
}

fn session(list: &[(&str, &str)]) -> VmState {
    VmState::from_files(&files(list)).unwrap()
}

/// Runs the one-file program `text`, which must end in a loop at a label,
/// and gives the session back once it goes round in that loop.
fn run(text: &str) -> VmState {
    let mut state = session(&[("Main", text)]);
    assert!(!state.run(100_000));
    state
}

fn stack(state: &VmState) -> Vec<Word> {
    let top = state.hardware.ram.get(0);
    (256..top).map(|cell| state.hardware.ram.get(cell)).collect()
}

const END: &str = "label END\ngoto END\n";

fn stack_after(commands: &str) -> Vec<Word> {
    stack(&run(&format!("{}\n{}", commands, END)))
}

fn program(list: &[(&str, &str)]) -> Program {
    let mut program = Program::new();
    for (name, text) in list {
        assert_eq!(program.add_file(name, text), Ok(()));
    }
    program
}

fn words(text: &str) -> Vec<Instruction> {
    assemble(text.as_bytes()).unwrap()
}

#[test]
fn call_and_return_across_files() {
    let main = "\
function Main.main 0
push constant 3
push constant 4
call Lib.add 2
label END
goto END
";
    let lib = "\
function Lib.add 0
push argument 0
push argument 1
add
return
";
    let mut state = session(&[("Main", main), ("Lib", lib)]);
    // Run up to the call: the two arguments are on the stack.
    state.hardware.add_breakpoint(Breakpoint { var: BreakpointVar::PC, value: 6 + 7 + 7 });
    assert!(state.run(1_000));
    assert_eq!(state.hardware.ram.get(0), 258);
    let segments: Vec<Word> = (1..5).map(|cell| state.hardware.ram.get(cell)).collect();
    state.hardware.remove_breakpoint(0);

    assert!(!state.run(100_000));
    // The depth before the arguments were pushed was 256: one value is left.
    assert_eq!(state.hardware.ram.get(0), 257);
    assert_eq!(state.hardware.ram.get(256), 7);
    let restored: Vec<Word> = (1..5).map(|cell| state.hardware.ram.get(cell)).collect();
    assert_eq!(restored, segments);
    assert_eq!(
        state.run_state(),
        Some(RunState { current_file_index: 0, current_command_index: 5 })
    );
}

#[test]
fn a_call_restores_the_segments_of_the_caller() {
    let main = "\
function Main.main 2
push constant 10
pop local 0
push constant 20
pop local 1
push constant 3000
pop pointer 0
push constant 4000
pop pointer 1
push constant 5
call Lib.twice 1
push local 0
push local 1
push pointer 0
push pointer 1
label END
goto END
";
    let lib = "\
function Lib.twice 3
push constant 111
pop local 2
push constant 7
pop pointer 0
push argument 0
push argument 0
add
return
";
    let mut state = session(&[("Main", main), ("Lib", lib)]);
    state.hardware.ram.set(1, 1000);
    state.hardware.ram.set(2, 1100);
    assert!(!state.run(100_000));
    assert_eq!(stack(&state), vec![0, 0, 10, 10, 20, 3000, 4000]);
    assert_eq!(state.hardware.ram.get(1), 1000);
    assert_eq!(state.hardware.ram.get(2), 1100);
    assert_eq!(state.hardware.ram.get(1000), 10);
    assert_eq!(state.hardware.ram.get(1001), 20);
}

#[test]
fn a_function_may_call_itself() {
    // sum(n) = n + sum(n - 1), sum(0) = 0
    let text = "\
function Main.main 0
push constant 10
call Main.sum 1
label END
goto END
function Main.sum 0
push argument 0
if-goto MORE
push constant 0
return
label MORE
push argument 0
push argument 0
push constant 1
sub
call Main.sum 1
add
return
";
    assert_eq!(stack(&run(text)), vec![55]);
}

#[test]
fn arithmetic_commands() {
    assert_eq!(stack_after("push constant 7\npush constant 8\nadd"), vec![15]);
    assert_eq!(stack_after("push constant 7\npush constant 8\nsub"), vec![-1]);
    assert_eq!(stack_after("push constant 7\nneg"), vec![-7]);
    assert_eq!(stack_after("push constant 12\npush constant 10\nand"), vec![8]);
    assert_eq!(stack_after("push constant 12\npush constant 10\nor"), vec![14]);
    assert_eq!(stack_after("push constant 12\nnot"), vec![-13]);
    assert_eq!(stack_after("push constant 32767\npush constant 1\nadd"), vec![-32768]);
    assert_eq!(stack_after("push constant 1\npush constant 2\npush constant 3\nadd"), vec![1, 5]);
}

#[test]
fn comparing_commands() {
    let cases = [
        ("eq", [false, true, false]),
        ("gt", [false, false, true]),
        ("lt", [true, false, false]),
    ];
    for (command, results) in cases {
        for (pair, expected) in [(3, 5), (4, 4), (5, 3)].iter().zip(results) {
            let text = format!("push constant {}\npush constant {}\n{}", pair.0, pair.1, command);
            let value = if expected { -1 } else { 0 };
            assert_eq!(stack_after(&text), vec![value], "{} {} {}", pair.0, pair.1, command);
        }
    }
    // The comparison ends where the next command starts, whatever came out.
    assert_eq!(
        stack_after("push constant 1\npush constant 1\neq\npush constant 9"),
        vec![-1, 9]
    );
    assert_eq!(
        stack_after("push constant 1\npush constant 2\neq\npush constant 9"),
        vec![0, 9]
    );
}

#[test]
fn segments_with_a_base() {
    let text = "\
push constant 300
pop pointer 0
push constant 400
pop pointer 1
push constant 11
pop this 2
push constant 22
pop that 5
push this 2
push that 5
add
label END
goto END
";
    let state = run(text);
    assert_eq!(stack(&state), vec![33]);
    assert_eq!(state.hardware.ram.get(3), 300);
    assert_eq!(state.hardware.ram.get(4), 400);
    assert_eq!(state.hardware.ram.get(302), 11);
    assert_eq!(state.hardware.ram.get(405), 22);
}

#[test]
fn temp_and_pointer_segments_are_fixed_cells() {
    let text = "\
push constant 1
pop temp 0
push constant 8
pop temp 7
push temp 7
push temp 0
label END
goto END
";
    let state = run(text);
    assert_eq!(stack(&state), vec![8, 1]);
    assert_eq!(state.hardware.ram.get(5), 1);
    assert_eq!(state.hardware.ram.get(12), 8);
}

#[test]
fn each_file_has_its_own_static_cells() {
    let first = "\
function First.main 0
push constant 1
pop static 0
push constant 2
pop static 2
call Second.set 0
push static 0
push static 2
label END
goto END
";
    let second = "\
function Second.set 0
push constant 9
pop static 0
push static 0
return
";
    let mut state = session(&[("First", first), ("Second", second)]);
    assert!(!state.run(100_000));
    assert_eq!(stack(&state), vec![9, 1, 2]);
    assert_eq!(state.hardware.ram.get(16), 1);
    assert_eq!(state.hardware.ram.get(18), 2);
    assert_eq!(state.hardware.ram.get(19), 9);
    assert_eq!(
        state.program.files(),
        &vec![
            File { starting_command_index: 0, command_count: 10, statics_base: 0, statics: 3 },
            File { starting_command_index: 10, command_count: 5, statics_base: 3, statics: 1 },
        ]
    );
}

#[test]
fn branches() {
    let text = "\
push constant 0
pop temp 0
push constant 5
pop temp 1
label LOOP
push temp 0
push temp 1
add
pop temp 0
push temp 1
push constant 1
sub
pop temp 1
push temp 1
if-goto LOOP
push temp 0
label END
goto END
";
    assert_eq!(stack(&run(text)), vec![15]);
}

#[test]
fn a_function_starts_with_its_locals_at_zero() {
    let text = "\
function Main.main 0
push constant 77
push constant 77
push constant 77
pop temp 0
pop temp 0
pop temp 0
call Main.locals 0
label END
goto END
function Main.locals 3
push local 0
push local 1
add
push local 2
add
return
";
    assert_eq!(stack(&run(text)), vec![0]);
}

#[test]
fn labels_belong_to_their_file() {
    let first = "\
function First.main 0
push constant 1
if-goto SKIP
push constant 100
label SKIP
call Second.run 0
label END
goto END
";
    let second = "\
function Second.run 0
push constant 1
if-goto SKIP
push constant 200
label SKIP
push constant 2
return
";
    let mut state = session(&[("First", first), ("Second", second)]);
    assert!(!state.run(100_000));
    assert_eq!(stack(&state), vec![2]);
}

#[test]
fn execution_starts_at_sys_init() {
    let main = "function Main.main 0\npush constant 1\nlabel END\ngoto END\n";
    let sys = "function Sys.init 0\npush constant 2\nlabel END\ngoto END\n";
    let mut state = session(&[("Main", main), ("Sys", sys)]);
    assert!(!state.run(100_000));
    assert_eq!(stack(&state), vec![2]);
    let mut state = session(&[("Main", main)]);
    assert!(!state.run(100_000));
    assert_eq!(stack(&state), vec![1]);
}

#[test]
fn translation_of_single_commands() {
    let boot = "@256\nD=A\n@SP\nM=D\n@6\n0;JMP\n";
    let cases = [
        ("push constant 7", "@7\nD=A\n@SP\nA=M\nM=D\n@SP\nM=M+1\n"),
        ("push local 3", "@3\nD=A\n@LCL\nA=D+M\nD=M\n@SP\nA=M\nM=D\n@SP\nM=M+1\n"),
        ("push argument 3", "@3\nD=A\n@ARG\nA=D+M\nD=M\n@SP\nA=M\nM=D\n@SP\nM=M+1\n"),
        ("push temp 3", "@8\nD=M\n@SP\nA=M\nM=D\n@SP\nM=M+1\n"),
        ("push pointer 1", "@THAT\nD=M\n@SP\nA=M\nM=D\n@SP\nM=M+1\n"),
        ("push static 4", "@20\nD=M\n@SP\nA=M\nM=D\n@SP\nM=M+1\n"),
        (
            "pop that 2",
            "@2\nD=A\n@THAT\nD=D+M\n@R13\nM=D\n@SP\nAM=M-1\nD=M\n@R13\nA=M\nM=D\n",
        ),
        ("pop temp 1", "@SP\nAM=M-1\nD=M\n@6\nM=D\n"),
        ("add", "@SP\nAM=M-1\nD=M\nA=A-1\nM=D+M\n"),
        ("sub", "@SP\nAM=M-1\nD=M\nA=A-1\nM=M-D\n"),
        ("and", "@SP\nAM=M-1\nD=M\nA=A-1\nM=D&M\n"),
        ("or", "@SP\nAM=M-1\nD=M\nA=A-1\nM=D|M\n"),
        ("neg", "@SP\nA=M-1\nM=-M\n"),
        ("not", "@SP\nA=M-1\nM=!M\n"),
        (
            "gt",
            "@SP\nAM=M-1\nD=M\nA=A-1\nD=M-D\nM=-1\n@17\nD;JGT\n@SP\nA=M-1\nM=0\n",
        ),
        ("label X\ngoto X", "@6\n0;JMP\n"),
        ("label X\nif-goto X", "@SP\nAM=M-1\nD=M\n@6\nD;JNE\n"),
        ("function f 2", "@SP\nAM=M+1\nA=A-1\nM=0\n@SP\nAM=M+1\nA=A-1\nM=0\n"),
        (
            "return",
            "@LCL\nD=M\n@R13\nM=D\n@5\nA=D-A\nD=M\n@R14\nM=D\n\
             @SP\nAM=M-1\nD=M\n@ARG\nA=M\nM=D\n@ARG\nD=M+1\n@SP\nM=D\n\
             @R13\nAM=M-1\nD=M\n@THAT\nM=D\n@R13\nAM=M-1\nD=M\n@THIS\nM=D\n\
             @R13\nAM=M-1\nD=M\n@ARG\nM=D\n@R13\nAM=M-1\nD=M\n@LCL\nM=D\n\
             @R14\nA=M\n0;JMP\n",
        ),
        (
            "function f 0\ncall f 2",
            "@53\nD=A\n@SP\nA=M\nM=D\n@SP\nM=M+1\n\
             @LCL\nD=M\n@SP\nA=M\nM=D\n@SP\nM=M+1\n\
             @ARG\nD=M\n@SP\nA=M\nM=D\n@SP\nM=M+1\n\
             @THIS\nD=M\n@SP\nA=M\nM=D\n@SP\nM=M+1\n\
             @THAT\nD=M\n@SP\nA=M\nM=D\n@SP\nM=M+1\n\
             @SP\nD=M\n@7\nD=D-A\n@ARG\nM=D\n@SP\nD=M\n@LCL\nM=D\n@6\n0;JMP\n",
        ),
    ];
    for (command, assembly) in cases {
        let translation = translate(&program(&[("Main", command)])).unwrap();
        let expected = words(&format!("{}{}", boot, assembly));
        assert_eq!(translation.instructions, expected, "{}", command);
        assert_eq!(translation.source_map.len(), expected.len());
    }
}

#[test]
fn the_source_map_names_the_command_of_each_instruction() {
    let text = "push constant 1\nlabel L\nneg\ngoto L\n";
    let linked = program(&[("Main", text)]);
    let translation = translate(&linked).unwrap();
    let mut expected = vec![0; 6 + 7];
    expected.extend(vec![2; 3]);
    expected.extend(vec![3; 2]);
    assert_eq!(translation.source_map, expected);
    assert_eq!(translation.instructions.len(), expected.len());
}

#[test]
fn the_run_state_follows_the_program_counter() {
    let first = "push constant 1\npush constant 2\n";
    let second = "// nothing but a comment\n";
    let third = "add\nlabel END\ngoto END\n";
    let mut state = session(&[("First", first), ("Second", second), ("Third", third)]);
    assert_eq!(
        state.run_state(),
        Some(RunState { current_file_index: 0, current_command_index: 0 })
    );
    state.run(6);
    assert_eq!(
        state.run_state(),
        Some(RunState { current_file_index: 0, current_command_index: 0 })
    );
    state.run(7);
    assert_eq!(
        state.run_state(),
        Some(RunState { current_file_index: 0, current_command_index: 1 })
    );
    state.run(7);
    assert_eq!(
        state.run_state(),
        Some(RunState { current_file_index: 2, current_command_index: 2 })
    );
    state.run(5);
    assert_eq!(
        state.run_state(),
        Some(RunState { current_file_index: 2, current_command_index: 4 })
    );
    state.hardware.pc = 27;
    assert_eq!(state.run_state(), None);
    state.hardware.pc = -1;
    assert_eq!(state.run_state(), None);
    state.reset();
    assert_eq!(
        state.run_state(),
        Some(RunState { current_file_index: 0, current_command_index: 0 })
    );
    assert_eq!(state.program.file_of(2), 2);
    assert_eq!(state.program.file_of(1), 0);
    assert_eq!(state.program.file_name(2), "Third");
    assert_eq!(state.program.file_index("Second"), Some(1));
    assert_eq!(state.program.file_index("Fourth"), None);
}

#[test]
fn commands_are_read_with_their_lines() {
    let text = "// Adds.\n\n  push   constant 7 // seven\r\n\tpop local 2\nlabel a.b$c:d_9\nif-goto a.b$c:d_9\ngoto a.b$c:d_9\nfunction Main.f 3\ncall Main.f 0\nreturn\nlt";
    let linked = program(&[("Main", text)]);
    assert_eq!(
        linked.all_commands(),
        &vec![
            Command::Push(Segment::Constant, 7),
            Command::Pop(Segment::Local, 2),
            Command::Label(0),
            Command::IfGoto(0),
            Command::Goto(0),
            Command::Function(1, 3),
            Command::Call(1, 0),
            Command::Return,
            Command::Arithmetic(Arithmetic::Lt),
        ]
    );
    assert_eq!(linked.names().len(), 2);
    assert_eq!(linked.names().get(0), b"a.b$c:d_9");
    assert_eq!(linked.names().get(1), b"Main.f");
    assert_eq!(linked.spans()[0], Span { line: 3, start: 10, end: 39 });
    assert_eq!(linked.spans()[1], Span { line: 4, start: 40, end: 52 });
    assert_eq!(linked.spans().len(), 9);
}

#[test]
fn names_are_shared_by_the_files() {
    let linked = program(&[
        ("A", "function f 0\ncall g 0\nlabel f\n"),
        ("B", "function g 0\ncall f 0\n"),
    ]);
    assert_eq!(
        linked.all_commands(),
        &vec![
            Command::Function(0, 0),
            Command::Call(1, 0),
            Command::Label(0),
            Command::Function(1, 0),
            Command::Call(0, 0),
        ]
    );
}

fn load_error(text: &str) -> LoadError {
    let mut program = Program::new();
    program.add_file("Main", text).unwrap_err()
}

fn span(line: usize, start: usize, end: usize) -> Span {
    Span { line, start, end }
}

#[test]
fn a_line_that_is_no_command_fails_the_file() {
    for text in [
        "pusch constant 1",
        "push constant",
        "push constant 1 2",
        "push nowhere 1",
        "pop constant 1",
        "push constant x",
        "push constant -1",
        "add 1",
        "label",
        "label 1abc",
        "goto a b",
        "jump a",
        "function f",
        "function f x",
        "function 9f 1",
        "call f",
        "call f 1 1",
        "return 1",
        "Add",
    ] {
        assert_eq!(load_error(text), LoadError::Syntax(span(1, 0, text.len())), "{}", text);
    }
    assert_eq!(load_error("add\nsub\n  bad\nneg"), LoadError::Syntax(span(3, 8, 13)));
}

#[test]
fn numbers_must_fit_their_place() {
    for text in [
        "push constant 32768",
        "push temp 8",
        "pop temp 8",
        "push pointer 2",
        "pop pointer 2",
        "push static 240",
        "push local 32768",
        "function f 32768",
        "call f 32763",
    ] {
        assert_eq!(load_error(text), LoadError::OutOfRange(span(1, 0, text.len())), "{}", text);
    }
    for text in [
        "push constant 32767",
        "push temp 7",
        "push pointer 1",
        "push static 239",
        "pop that 32767",
        "call f 32762",
    ] {
        let mut program = Program::new();
        assert_eq!(program.add_file("Main", text), Ok(()), "{}", text);
    }
}

#[test]
fn static_cells_run_out() {
    let mut program = Program::new();
    assert_eq!(program.add_file("A", "push static 199"), Ok(()));
    assert_eq!(program.add_file("B", "pop static 39"), Ok(()));
    assert_eq!(
        program.add_file("C", "push static 0"),
        Err(LoadError::OutOfMemory(span(1, 0, 13)))
    );
    assert_eq!(program.add_file("D", "add"), Ok(()));
    let mut program = Program::new();
    assert_eq!(program.add_file("A", "push static 100"), Ok(()));
    assert_eq!(
        program.add_file("B", "push static 138\npush static 139"),
        Err(LoadError::OutOfMemory(span(2, 16, 31)))
    );
}

#[test]
fn a_failed_file_leaves_the_program_as_it_was() {
    let mut program = program(&[("A", "function f 0\nlabel x\n")]);
    assert_eq!(
        program.add_file("B", "function g 1\nlabel y\npush static 5\nnonsense\n"),
        Err(LoadError::Syntax(span(4, 35, 43)))
    );
    assert_eq!(program.files().len(), 1);
    assert_eq!(program.all_commands().len(), 2);
    assert_eq!(program.spans().len(), 2);
    assert_eq!(program.names().len(), 2);
    assert_eq!(program.file_index("B"), None);
    assert_eq!(program.add_file("B", "label y\npush static 0\n"), Ok(()));
    assert_eq!(
        program.files()[1],
        File { starting_command_index: 2, command_count: 2, statics_base: 0, statics: 1 }
    );
    assert_eq!(program.all_commands()[2], Command::Label(2));
}

#[test]
fn file_names_are_unique() {
    let mut program = program(&[("A", "add")]);
    assert_eq!(program.add_file("A", "sub"), Err(LoadError::DuplicateFile));
    assert_eq!(program.all_commands().len(), 1);
    assert_eq!(
        VmState::from_files(&files(&[("A", "add"), ("B", "add"), ("A", "add")])).err(),
        Some(VmError::Load { file: 2, error: LoadError::DuplicateFile })
    );
    assert_eq!(
        VmState::from_files(&files(&[("A", "add"), ("B", "what")])).err(),
        Some(VmError::Load { file: 1, error: LoadError::Syntax(span(1, 0, 4)) })
    );
}

fn link_error(list: &[(&str, &str)]) -> LinkError {
    translate(&program(list)).err().unwrap()
}

#[test]
fn functions_are_unique_in_the_program() {
    assert_eq!(
        link_error(&[("A", "function f 0\nreturn\n"), ("B", "add\nfunction f 0\n")]),
        LinkError::DuplicateFunction { command: 3 }
    );
    assert_eq!(
        VmState::from_files(&files(&[("A", "function f 0\nfunction f 1\n")])).err(),
        Some(VmError::Link(LinkError::DuplicateFunction { command: 1 }))
    );
}

#[test]
fn a_called_function_must_be_declared() {
    assert_eq!(
        link_error(&[("A", "function f 0\ncall g 0\n"), ("B", "label g\n")]),
        LinkError::UndeclaredFunction { command: 1 }
    );
    assert!(translate(&program(&[("A", "call g 0\n"), ("B", "function g 0\n")])).is_ok());
}

#[test]
fn labels_are_unique_in_their_file() {
    assert_eq!(
        link_error(&[("A", "label x\nadd\nlabel x\n")]),
        LinkError::DuplicateLabel { command: 2 }
    );
    assert!(translate(&program(&[("A", "label x\n"), ("B", "label x\n")])).is_ok());
}

#[test]
fn a_label_must_be_declared_in_the_file_of_the_jump() {
    assert_eq!(
        link_error(&[("A", "label x\n"), ("B", "add\ngoto x\n")]),
        LinkError::UndeclaredLabel { command: 2 }
    );
    assert_eq!(
        link_error(&[("A", "if-goto x\n"), ("B", "label x\n")]),
        LinkError::UndeclaredLabel { command: 0 }
    );
    assert!(translate(&program(&[("A", "goto x\nlabel x\n")])).is_ok());
}

#[test]
fn the_first_fault_is_reported() {
    assert_eq!(
        link_error(&[("A", "add\ncall f 0\ngoto x\nlabel y\nlabel y\n")]),
        LinkError::UndeclaredFunction { command: 1 }
    );
}

#[test]
fn the_translation_must_fit_the_instruction_memory() {
    // 6 + 4681 * 7 = 32773
    let too_long = "push constant 1\n".repeat(4681);
    assert_eq!(link_error(&[("A", &too_long)]), LinkError::ProgramTooLong);
    // 6 + 4680 * 7 = 32766, and one command of 0 instructions
    let fits = format!("{}label x\n", "push constant 1\n".repeat(4680));
    let translation = translate(&program(&[("A", &fits)])).unwrap();
    assert_eq!(translation.instructions.len(), 32766);
    assert_eq!(link_error(&[("A", "function f 32767\n")]), LinkError::ProgramTooLong);
    // faults come before the length
    assert_eq!(
        link_error(&[("A", &format!("{}goto nowhere\n", too_long))]),
        LinkError::UndeclaredLabel { command: 4681 }
    );
}

#[test]
fn a_program_without_commands() {
    let mut state = session(&[]);
    assert_eq!(state.source_map, vec![0; 6]);
    assert_eq!(state.run_state(), None);
    assert!(!state.run(6));
    assert_eq!(state.hardware.ram.get(0), 256);
    let state = session(&[("Empty", "// nothing\n")]);
    assert_eq!(state.run_state(), None);
    assert_eq!(
        state.program.files(),
        &vec![File { starting_command_index: 0, command_count: 0, statics_base: 0, statics: 0 }]
    );
}
