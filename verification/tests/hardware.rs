use nand2tetris::hardware::{
    alu, Breakpoint, BreakpointVar, Decoded, Destinations, Hardware, Instruction,
    Jump, Operation, Word, KEYBOARD, RAM,
};

fn program(words: &[u16]) -> Vec<Instruction> {
    words.iter().map(|raw| Instruction::new(*raw)).collect()
}

fn compute(use_memory: bool, operation: Operation, a: bool, d: bool, m: bool, jump: Jump) -> u16 {
    Decoded::Compute {
        spare: 3,
        use_memory,
        function: operation.code(),
        dest: Destinations { a, d, m },
        jump,
    }
    .encode()
}

fn loaded(words: &[u16]) -> Hardware {
    let mut hardware = Hardware::new();
    assert_eq!(hardware.load_program(program(words)), Ok(()));
    hardware
}

#[test]
fn every_word_survives_decoding_and_encoding() {
    for raw in 0..=u16::MAX {
        let decoded = Instruction::new(raw).decode();
        assert_eq!(decoded.encode(), raw);
        assert_eq!(decode_word_exec(raw), decoded);
    }
}

fn decode_word_exec(raw: u16) -> Decoded {
    Instruction { raw }.decode()
}

#[test]
fn decodes_the_fields_of_a_compute_instruction() {
    // MD=M+1;JGT
    let decoded = Instruction::new(0b111_1_110111_011_001).decode();
    assert_eq!(
        decoded,
        Decoded::Compute {
            spare: 3,
            use_memory: true,
            function: 0b110111,
            dest: Destinations { a: false, d: true, m: true },
            jump: Jump::Greater,
        }
    );
    assert_eq!(Instruction::new(0x7fff).decode(), Decoded::Address { value: 0x7fff });
    assert_eq!(Instruction::new(0).decode(), Decoded::Address { value: 0 });
}

#[test]
fn spare_bits_are_kept() {
    let decoded = Instruction::new(0x8000).decode();
    assert_eq!(
        decoded,
        Decoded::Compute {
            spare: 0,
            use_memory: false,
            function: 0,
            dest: Destinations { a: false, d: false, m: false },
            jump: Jump::Never,
        }
    );
    assert_eq!(decoded.encode(), 0x8000);
}

#[test]
fn alu_follows_the_table() {
    let samples: [Word; 9] = [0, 1, -1, 2, 5, -7, 1234, 32767, -32768];
    for &d in &samples {
        for &y in &samples {
            let run = |operation: Operation| alu(operation.code(), d, y).value;
            assert_eq!(run(Operation::Zero), 0);
            assert_eq!(run(Operation::One), 1);
            assert_eq!(run(Operation::MinusOne), -1);
            assert_eq!(run(Operation::D), d);
            assert_eq!(run(Operation::Y), y);
            assert_eq!(run(Operation::NotD), !d);
            assert_eq!(run(Operation::NotY), !y);
            assert_eq!(run(Operation::NegD), d.wrapping_neg());
            assert_eq!(run(Operation::NegY), y.wrapping_neg());
            assert_eq!(run(Operation::IncD), d.wrapping_add(1));
            assert_eq!(run(Operation::IncY), y.wrapping_add(1));
            assert_eq!(run(Operation::DecD), d.wrapping_sub(1));
            assert_eq!(run(Operation::DecY), y.wrapping_sub(1));
            assert_eq!(run(Operation::DPlusY), d.wrapping_add(y));
            assert_eq!(run(Operation::DMinusY), d.wrapping_sub(y));
            assert_eq!(run(Operation::YMinusD), y.wrapping_sub(d));
            assert_eq!(run(Operation::DAndY), d & y);
            assert_eq!(run(Operation::DOrY), d | y);
        }
    }
}

#[test]
fn alu_wraps_at_the_sixteen_bit_boundary() {
    assert_eq!(alu(Operation::IncD.code(), 32767, 0).value, -32768);
    assert_eq!(alu(Operation::DPlusY.code(), 32767, 1).value, -32768);
    assert_eq!(alu(Operation::DecD.code(), -32768, 0).value, 32767);
    assert_eq!(alu(Operation::NegD.code(), -32768, 0).value, -32768);
    assert_eq!(alu(Operation::DMinusY.code(), -32768, 1).value, 32767);
}

#[test]
fn alu_reports_sign_and_zero() {
    let out = alu(Operation::DMinusY.code(), 3, 3);
    assert!(out.zero && !out.negative);
    let out = alu(Operation::DMinusY.code(), 3, 4);
    assert!(!out.zero && out.negative);
    let out = alu(Operation::DMinusY.code(), 4, 3);
    assert!(!out.zero && !out.negative);
}

#[test]
fn function_codes_round_trip() {
    let mut named = 0;
    for code in 0..64u8 {
        if let Some(operation) = Operation::from_code(code) {
            assert_eq!(operation.code(), code);
            named += 1;
        }
    }
    assert_eq!(named, 18);
}

#[test]
fn unnamed_function_code_has_a_fixed_result() {
    // 000001: not (D and Y)
    assert_eq!(Operation::from_code(0b000001), None);
    assert_eq!(alu(0b000001, 0b1100, 0b1010).value, !0b1000);
}

#[test]
fn jump_goes_to_the_address_register_iff_the_condition_holds() {
    let jumps = [
        Jump::Never,
        Jump::Greater,
        Jump::Equal,
        Jump::GreaterEqual,
        Jump::Less,
        Jump::NotEqual,
        Jump::LessEqual,
        Jump::Always,
    ];
    let expected = |jump: Jump, out: Word| match jump {
        Jump::Never => false,
        Jump::Greater => out > 0,
        Jump::Equal => out == 0,
        Jump::GreaterEqual => out >= 0,
        Jump::Less => out < 0,
        Jump::NotEqual => out != 0,
        Jump::LessEqual => out <= 0,
        Jump::Always => true,
    };
    for (code, &jump) in jumps.iter().enumerate() {
        assert_eq!(jump.code() as usize, code);
        assert_eq!(Jump::from_code(code as u8), jump);
        for &out in &[-5 as Word, 0, 7] {
            // 0: @100   1: D;jump
            let mut hardware = loaded(&[100, compute(false, Operation::D, false, false, false, jump)]);
            hardware.d = out;
            assert!(!hardware.step());
            hardware.step();
            let taken = expected(jump, out);
            assert_eq!(jump.holds(out), taken);
            assert_eq!(hardware.pc, if taken { 100 } else { 2 });
        }
    }
}

#[test]
fn adds_two_and_three() {
    let mut hardware = loaded(&[
        2,
        compute(false, Operation::Y, false, true, false, Jump::Never),
        3,
        compute(false, Operation::DPlusY, false, true, false, Jump::Never),
        0,
        compute(false, Operation::D, false, false, true, Jump::Never),
    ]);
    for _ in 0..3 {
        assert!(!hardware.step());
    }
    assert_eq!(hardware.pc, 3);
    assert_eq!(hardware.a, 3);
    assert_eq!(hardware.d, 2);
    for _ in 0..3 {
        assert!(!hardware.step());
    }
    assert_eq!(hardware.ram.get(0), 5);
    assert_eq!(hardware.pc, 6);
}

#[test]
fn raw_words_of_the_addition_program() {
    // @2 D=A @3 D=D+A @0 M=D
    let mut hardware = loaded(&[2, 0xec10, 3, 0xe090, 0, 0xe308]);
    assert!(!hardware.run(6));
    assert_eq!(hardware.ram.get(0), 5);
    assert_eq!(hardware.pc, 6);
}

#[test]
fn memory_destination_is_the_cell_addressed_before_the_update() {
    // @7  AM=A+1
    let mut hardware = loaded(&[7, compute(false, Operation::IncY, true, false, true, Jump::Never)]);
    hardware.run(2);
    assert_eq!(hardware.a, 8);
    assert_eq!(hardware.ram.get(7), 8);
    assert_eq!(hardware.ram.get(8), 0);
}

#[test]
fn jump_target_is_the_updated_address_register() {
    // @7  A=A+1;JMP
    let mut hardware = loaded(&[7, compute(false, Operation::IncY, true, false, false, Jump::Always)]);
    hardware.run(2);
    assert_eq!(hardware.pc, 8);
}

#[test]
fn unconditional_jump_to_itself_halts() {
    // 0: @1   1: 0;JMP
    let mut hardware = loaded(&[1, compute(false, Operation::Zero, false, false, false, Jump::Always)]);
    assert!(!hardware.step());
    assert!(hardware.step());
    assert_eq!(hardware.pc, 1);
    assert!(hardware.step());
    assert_eq!(hardware.pc, 1);
    assert!(!hardware.is_stuck());
}

#[test]
fn conditional_jump_to_itself_does_not_halt() {
    // 0: @1   1: D;JEQ
    let mut hardware = loaded(&[1, compute(false, Operation::D, false, false, false, Jump::Equal)]);
    assert!(!hardware.step());
    assert!(!hardware.step());
    assert_eq!(hardware.pc, 1);
}

#[test]
fn run_stops_at_the_halt() {
    let mut hardware = loaded(&[1, compute(false, Operation::Zero, false, false, false, Jump::Always)]);
    assert!(hardware.run(1_000_000));
    assert_eq!(hardware.pc, 1);
    assert_eq!(hardware.a, 1);
}

#[test]
fn run_with_no_budget_does_nothing() {
    let mut hardware = loaded(&[5]);
    assert!(!hardware.run(0));
    assert_eq!(hardware.pc, 0);
    assert_eq!(hardware.a, 0);
}

#[test]
fn run_uses_up_its_budget() {
    let mut hardware = loaded(&[1, 2, 3, 4, 5]);
    assert!(!hardware.run(3));
    assert_eq!(hardware.pc, 3);
    assert_eq!(hardware.a, 3);
}

#[test]
fn memory_access_outside_the_address_space_stops_the_machine() {
    // 0: A=-1   1: M=1
    let mut hardware = loaded(&[
        compute(false, Operation::MinusOne, true, false, false, Jump::Never),
        compute(false, Operation::One, false, false, true, Jump::Never),
    ]);
    assert!(!hardware.step());
    assert_eq!(hardware.a, -1);
    assert!(hardware.is_stuck());
    assert!(hardware.step());
    assert_eq!(hardware.pc, 1);
    assert_eq!(hardware.a, -1);
}

#[test]
fn program_counter_outside_the_program_memory_stops_the_machine() {
    // 0: A=-1   1: 0;JMP
    let mut hardware = loaded(&[
        compute(false, Operation::MinusOne, true, false, false, Jump::Never),
        compute(false, Operation::Zero, false, false, false, Jump::Always),
    ]);
    assert!(!hardware.run(2));
    assert_eq!(hardware.pc, -1);
    assert!(hardware.is_stuck());
    assert!(hardware.run(10));
    assert_eq!(hardware.pc, -1);
}

#[test]
fn program_cannot_write_the_keyboard() {
    // @24576  M=1  D=M
    let mut hardware = loaded(&[
        24576,
        compute(false, Operation::One, false, false, true, Jump::Never),
        compute(true, Operation::Y, false, true, false, Jump::Never),
    ]);
    hardware.ram.set_keyboard(65);
    hardware.run(3);
    assert_eq!(hardware.ram.keyboard(), 65);
    assert_eq!(hardware.d, 65);
}

#[test]
fn memory_set_keeps_the_keyboard_word() {
    let mut ram = RAM::new();
    ram.set(KEYBOARD, 9);
    assert_eq!(ram.get(KEYBOARD), 0);
    ram.set_keyboard(32);
    assert_eq!(ram.get(KEYBOARD), 32);
    assert_eq!(ram.keyboard(), 32);
    ram.set(KEYBOARD - 1, 9);
    assert_eq!(ram.get(KEYBOARD - 1), 9);
    assert_eq!(ram.screen_word(255, 31), 9);
    ram.set(32767, -3);
    assert_eq!(ram.get(32767), -3);
    ram.clear();
    assert_eq!(ram.get(32767), 0);
    assert_eq!(ram.keyboard(), 0);
}

#[test]
fn breakpoint_stops_the_run_where_the_value_first_appears() {
    // count D up forever: 0: D=D+1   1: @0   2: 0;JMP
    let words = [
        compute(false, Operation::IncD, false, true, false, Jump::Never),
        0,
        compute(false, Operation::Zero, false, false, false, Jump::Always),
    ];
    let mut hardware = loaded(&words);
    hardware.add_breakpoint(Breakpoint { var: BreakpointVar::D, value: 4 });
    assert!(hardware.run(1_000_000));
    assert_eq!(hardware.d, 4);

    let mut stepped = loaded(&words);
    let mut steps = 0;
    while stepped.d != 4 {
        assert!(!stepped.step());
        steps += 1;
    }
    assert_eq!(steps, 10);
    assert_eq!(hardware.pc, stepped.pc);
    assert_eq!(hardware.a, stepped.a);
    assert_eq!(hardware.d, stepped.d);
    assert_eq!(hardware.ram.contents[..], stepped.ram.contents[..]);
}

#[test]
fn breakpoints_on_each_variable() {
    let words = [
        100,
        compute(false, Operation::Y, false, false, true, Jump::Never),
        compute(false, Operation::Y, false, true, false, Jump::Never),
        5,
        6,
    ];
    let cases = [
        (BreakpointVar::A, 100, 1),
        (BreakpointVar::RAM(100), 100, 2),
        (BreakpointVar::D, 100, 3),
        (BreakpointVar::PC, 4, 4),
        (BreakpointVar::A, 6, 5),
    ];
    for (var, value, pc) in cases {
        let mut hardware = loaded(&words);
        hardware.add_breakpoint(Breakpoint { var, value });
        assert!(hardware.run(50));
        assert_eq!(hardware.pc, pc);
    }
}

#[test]
fn any_of_several_breakpoints_stops_the_run() {
    let mut hardware = loaded(&[1, 2, 3, 4, 5, 6]);
    hardware.add_breakpoint(Breakpoint { var: BreakpointVar::A, value: 5 });
    hardware.add_breakpoint(Breakpoint { var: BreakpointVar::PC, value: 3 });
    assert!(hardware.at_breakpoint() == false);
    assert!(hardware.run(50));
    assert_eq!(hardware.pc, 3);
    assert!(hardware.run(50));
    assert_eq!(hardware.a, 5);
    assert_eq!(
        hardware.remove_breakpoint(0),
        Some(Breakpoint { var: BreakpointVar::A, value: 5 })
    );
    assert_eq!(hardware.remove_breakpoint(5), None);
    assert_eq!(hardware.breakpoints.len(), 1);
}

#[test]
fn breakpoint_on_a_cell_outside_the_memory_never_matches() {
    let mut hardware = loaded(&[1, 2, 3]);
    hardware.add_breakpoint(Breakpoint { var: BreakpointVar::RAM(-1), value: 0 });
    assert!(!hardware.run(3));
}

#[test]
fn reset_twice_is_reset_once() {
    let mut hardware = loaded(&[7, compute(false, Operation::Y, false, true, true, Jump::Never)]);
    hardware.add_breakpoint(Breakpoint { var: BreakpointVar::D, value: 1 });
    hardware.run(2);
    assert_eq!(hardware.ram.get(7), 7);
    hardware.reset();
    let once = (hardware.a, hardware.d, hardware.pc, hardware.ram.contents.to_vec(), hardware.rom.to_vec());
    hardware.reset();
    let twice = (hardware.a, hardware.d, hardware.pc, hardware.ram.contents.to_vec(), hardware.rom.to_vec());
    assert_eq!(once, twice);
    assert_eq!((hardware.a, hardware.d, hardware.pc), (0, 0, 0));
    assert_eq!(hardware.ram.get(7), 0);
    assert_eq!(hardware.rom[0], Instruction::new(7));
    assert_eq!(hardware.breakpoints.len(), 1);
}

#[test]
fn program_longer_than_the_memory_is_refused() {
    let mut hardware = loaded(&[42]);
    hardware.a = 3;
    let result = hardware.load_program(vec![Instruction::new(1); 32769]);
    assert_eq!(result, Err(nand2tetris::error::LoadError::ProgramTooLong));
    assert_eq!(hardware.rom[0], Instruction::new(42));
    assert_eq!(hardware.a, 3);
    assert_eq!(hardware.load_program(vec![Instruction::new(1); 32768]), Ok(()));
    assert_eq!(hardware.rom[32767], Instruction::new(1));
    assert_eq!(hardware.a, 0);
}

#[test]
fn loading_pads_the_memory_with_zero_words() {
    let mut hardware = loaded(&[9, 9, 9]);
    assert_eq!(hardware.load_program(program(&[5])), Ok(()));
    assert_eq!(hardware.rom[0], Instruction::new(5));
    assert_eq!(hardware.rom[1], Instruction::new(0));
    assert_eq!(hardware.rom[2], Instruction::new(0));
}

#[test]
fn a_loop_of_two_instructions_does_not_halt() {
    // 0: @5  1: D=A  (END) 2: @2  3: 0;JMP
    let mut hardware = loaded(&[
        5,
        compute(false, Operation::Y, false, true, false, Jump::Never),
        2,
        compute(false, Operation::Zero, false, false, false, Jump::Always),
    ]);
    for _ in 0..10 {
        assert!(!hardware.step());
    }
    assert_eq!((hardware.a, hardware.d, hardware.pc), (2, 5, 2));
    assert!(!hardware.run(1000));
    // @0  0;JMP, started at the jump with a breakpoint that two steps reach
    let mut hardware = loaded(&[0, 60039]);
    assert!(!hardware.run(1000));
    hardware.reset();
    hardware.pc = 1;
    hardware.add_breakpoint(Breakpoint { var: BreakpointVar::PC, value: 1 });
    assert!(hardware.run(1000));
    assert_eq!(hardware.pc, 1);
    let mut stepped = loaded(&[0, 60039]);
    stepped.pc = 1;
    assert!(!stepped.step());
    assert_eq!(stepped.pc, 0);
    assert!(!stepped.step());
    assert_eq!((stepped.a, stepped.pc), (hardware.a, hardware.pc));
}

#[test]
fn a_jump_back_that_changes_something_does_not_halt() {
    // 0: @0  1: D=D+1;JMP
    let mut hardware = loaded(&[0, compute(false, Operation::IncD, false, true, false, Jump::Always)]);
    assert!(!hardware.run(9));
    assert_eq!(hardware.d, 4);
    // 0: @1  1: D=D+1;JMP  jumps to itself and counts
    let mut hardware = loaded(&[1, compute(false, Operation::IncD, false, true, false, Jump::Always)]);
    assert!(!hardware.run(9));
    assert_eq!(hardware.d, 8);
    // 0: @1  1: M=D;JMP  writes what is there already
    let mut hardware = loaded(&[1, compute(false, Operation::D, false, false, true, Jump::Always)]);
    assert!(hardware.run(9));
    assert_eq!(hardware.pc, 1);
}

#[test]
fn a_jump_to_another_address_instruction_does_not_halt() {
    // 0: @0  1: 0;JMP  goes round through two instructions
    let mut hardware = loaded(&[0, compute(false, Operation::Zero, false, false, false, Jump::Always)]);
    assert!(!hardware.run(10));
    assert_eq!(hardware.pc, 0);
    // 0: @2  1: @0  2: 0;JMP  jumps back by two
    let mut hardware = loaded(&[2, 0, compute(false, Operation::Zero, false, false, false, Jump::Always)]);
    hardware.pc = 2;
    hardware.a = 0;
    assert!(!hardware.step());
    assert_eq!(hardware.pc, 0);
}

#[test]
fn operations_that_ignore_the_second_operand() {
    let ignoring = [
        Operation::Zero,
        Operation::One,
        Operation::MinusOne,
        Operation::D,
        Operation::NotD,
        Operation::NegD,
        Operation::IncD,
        Operation::DecD,
    ];
    for code in 0..64u8 {
        if let Some(operation) = Operation::from_code(code) {
            assert_eq!(operation.uses_operand(), !ignoring.contains(&operation));
            if !operation.uses_operand() {
                assert_eq!(alu(code, 17, 3).value, alu(code, 17, -900).value);
            }
        }
    }
}

#[test]
fn destinations_and_their_codes() {
    for code in 0..8u8 {
        let dest = Destinations::from_code(code);
        assert_eq!(dest.code(), code);
        assert_eq!((dest.a, dest.d, dest.m), (code & 4 != 0, code & 2 != 0, code & 1 != 0));
    }
}
