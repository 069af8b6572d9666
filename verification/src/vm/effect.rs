//! What the translated code does when the machine runs it.
//!
//! The laws here follow the machine through the instructions of a piece of
//! code, for every state in which the stack lies where it belongs: above
//! its first cell and below the screen.

use vstd::prelude::*;
use super::code::{
    at_spec, binary_spec, boot_spec, call_spec, compare_spec, goto_spec, if_goto_spec, local_length,
    local_spec, op_spec, pop_cell_spec, pop_d_spec, pop_indirect_spec, push_cell_length,
    push_cell_spec, push_constant_length, push_constant_spec, push_d_spec, push_indirect_spec,
    restore_length, restore_spec, ret_spec, unary_spec, A, AM, D, M, MEMORY, NOWHERE, REGISTER,
};
use super::command::{
    Arithmetic, Command, Segment, ARG, LCL, SCRATCH, SCRATCH2, SP, STACK, THAT, THIS,
};
use super::program::Linked;
use super::translator::{
    address_of, addresses_grow, code_reaches_address, function_from, label_from, repeat,
    repeat_has_length, size_spec,
};
use crate::hardware::alu::{alu_computes_operation, wrap16, Operation};
use crate::hardware::cpu::{rom_of, Machine};
use crate::hardware::instruction::{
    encode_then_decode, Decoded, Destinations, Instruction, Jump, Word,
};
use crate::hardware::ram::{store_spec, SCREEN};

verus! {

/// The instructions `code` stand in the instruction memory of `machine`
/// from address `address` on, and the program counter can pass over them.
pub open spec fn holds_code(machine: Machine, address: int, code: Seq<Instruction>) -> bool {
    0 <= address && address + code.len() < 32768 && machine.rom.len() == 32768
        && machine.ram.len() == 32768 && machine.rom.subrange(
        address,
        address + code.len(),
    ) == code
}

/// Code that stands in the instruction memory does so piece by piece.
pub proof fn holds_code_in_parts(
    machine: Machine,
    address: int,
    first: Seq<Instruction>,
    second: Seq<Instruction>,
)
    requires
        holds_code(machine, address, first + second),
    ensures
        holds_code(machine, address, first),
        holds_code(machine, address + first.len(), second),
{
    let whole = machine.rom.subrange(address, address + (first + second).len());
    assert(machine.rom.subrange(address, address + first.len()) =~= whole.subrange(
        0,
        first.len() as int,
    ));
    assert(whole.subrange(0, first.len() as int) =~= first);
    assert(machine.rom.subrange(address + first.len(), address + first.len() + second.len())
        =~= whole.subrange(first.len() as int, whole.len() as int));
    assert(whole.subrange(first.len() as int, whole.len() as int) =~= second);
}

/// The instruction at position `index` of code that stands at `address`.
pub proof fn holds_code_at(machine: Machine, address: int, code: Seq<Instruction>, index: int)
    requires
        holds_code(machine, address, code),
        0 <= index < code.len(),
    ensures
        machine.rom[address + index] == code[index],
{
    assert(machine.rom.subrange(address, address + code.len())[index] == machine.rom[address
        + index]);
}

/// Steps add up.
pub proof fn after_adds_up(machine: Machine, first: nat, second: nat)
    ensures
        machine.after(first + second) == machine.after(first).after(second),
        machine.after(first).rom == machine.rom,
    decreases first,
{
    if first > 0 {
        after_adds_up(machine.step(), (first - 1) as nat, second);
    }
}

/// What an address instruction does.
pub proof fn step_at(machine: Machine, value: u16)
    requires
        0 <= machine.pc < 32767,
        machine.rom[machine.pc as int] == at_spec(value),
        value < 0x8000,
    ensures
        machine.step() == (Machine { a: value as Word, pc: (machine.pc + 1) as Word, ..machine }),
{
}

/// The state after the compute instruction that stores `operation` in the
/// destinations with code `dest` and jumps on `jump`.
pub open spec fn after_op(machine: Machine, dest: u8, use_memory: bool, operation: Operation, jump: Jump) -> Machine {
    let operand = if use_memory { machine.ram[machine.a as int] } else { machine.a };
    let out = operation.apply(machine.d, operand);
    let a = if dest / 4 % 2 == 1 { out } else { machine.a };
    Machine {
        a,
        d: if dest / 2 % 2 == 1 { out } else { machine.d },
        pc: if jump.holds_spec(out) { a } else { (machine.pc + 1) as Word },
        ram: if dest % 2 == 1 { store_spec(machine.ram, machine.a, out) } else { machine.ram },
        rom: machine.rom,
    }
}

/// What a compute instruction with a named operation does.
pub proof fn step_op(machine: Machine, dest: u8, use_memory: bool, operation: Operation, jump: Jump)
    requires
        0 <= machine.pc < 32767,
        machine.rom[machine.pc as int] == op_spec(dest, use_memory, operation, jump),
        dest < 8,
        use_memory || dest % 2 == 1 ==> machine.a >= 0,
    ensures
        machine.step() == after_op(machine, dest, use_memory, operation, jump),
{
    let decoded = Decoded::Compute {
        spare: 3,
        use_memory,
        function: operation.code_spec(),
        dest: Destinations::from_code_spec(dest),
        jump,
    };
    encode_then_decode(decoded);
    let operand = if use_memory { machine.ram[machine.a as int] } else { machine.a };
    alu_computes_operation(operation, machine.d, operand);
}

/// The machine is about to run the instructions `code`.
pub open spec fn ready(machine: Machine, code: Seq<Instruction>) -> bool {
    machine.pc >= 0 && holds_code(machine, machine.pc as int, code)
}

/// The stack pointer of `machine` is `top`, and the stack has room.
pub open spec fn stack_at(machine: Machine, top: Word) -> bool {
    machine.ram[SP as int] == top && STACK <= top < SCREEN
}

/// Pushing the data register puts it into the cell that the stack pointer
/// names and moves the stack pointer up by one.
pub proof fn push_d_effect(machine: Machine, top: Word)
    requires
        ready(machine, push_d_spec()),
        stack_at(machine, top),
    ensures
        machine.after(5) == (Machine {
            a: SP as Word,
            pc: (machine.pc + 5) as Word,
            ram: machine.ram.update(top as int, machine.d).update(SP as int, (top + 1) as Word),
            ..machine
        }),
{
    let pc = machine.pc as int;
    let code = push_d_spec();
    reveal_with_fuel(Machine::after, 6);
    holds_code_at(machine, pc, code, 0);
    holds_code_at(machine, pc, code, 1);
    holds_code_at(machine, pc, code, 2);
    holds_code_at(machine, pc, code, 3);
    holds_code_at(machine, pc, code, 4);
    let m1 = machine.step();
    step_at(machine, SP);
    let m2 = m1.step();
    step_op(m1, A, MEMORY, Operation::Y, Jump::Never);
    let m3 = m2.step();
    step_op(m2, M, REGISTER, Operation::D, Jump::Never);
    let m4 = m3.step();
    step_at(m3, SP);
    let m5 = m4.step();
    step_op(m4, M, MEMORY, Operation::IncY, Jump::Never);
    assert(m5.ram =~= machine.ram.update(top as int, machine.d).update(SP as int, (top + 1) as Word));
}

/// Popping into the data register takes the value below the stack pointer,
/// moves the stack pointer down by one, and leaves the address register at
/// the cell that held the value.
pub proof fn pop_d_effect(machine: Machine, top: Word)
    requires
        ready(machine, pop_d_spec()),
        stack_at(machine, top),
        top > STACK,
    ensures
        machine.after(3) == (Machine {
            a: (top - 1) as Word,
            d: machine.ram[top - 1],
            pc: (machine.pc + 3) as Word,
            ram: machine.ram.update(SP as int, (top - 1) as Word),
            ..machine
        }),
{
    let pc = machine.pc as int;
    let code = pop_d_spec();
    reveal_with_fuel(Machine::after, 4);
    holds_code_at(machine, pc, code, 0);
    holds_code_at(machine, pc, code, 1);
    holds_code_at(machine, pc, code, 2);
    let m1 = machine.step();
    step_at(machine, SP);
    let m2 = m1.step();
    step_op(m1, AM, MEMORY, Operation::DecY, Jump::Never);
    let m3 = m2.step();
    step_op(m2, D, MEMORY, Operation::Y, Jump::Never);
    assert(m3.ram =~= machine.ram.update(SP as int, (top - 1) as Word));
}

/// The machine with the value `value` pushed on a stack whose pointer is `top`.
pub open spec fn pushed(ram: Seq<Word>, top: Word, value: Word) -> Seq<Word> {
    ram.update(top as int, value).update(SP as int, (top + 1) as Word)
}

/// `push constant value` pushes the number.
pub proof fn push_constant_effect(machine: Machine, value: u16, top: Word)
    requires
        ready(machine, push_constant_spec(value)),
        stack_at(machine, top),
        value < 0x8000,
    ensures
        machine.after(7) == (Machine {
            a: SP as Word,
            d: value as Word,
            pc: (machine.pc + 7) as Word,
            ram: pushed(machine.ram, top, value as Word),
            ..machine
        }),
{
    let pc = machine.pc as int;
    let load = seq![at_spec(value), op_spec(D, REGISTER, Operation::Y, Jump::Never)];
    holds_code_in_parts(machine, pc, load, push_d_spec());
    holds_code_at(machine, pc, load, 0);
    holds_code_at(machine, pc, load, 1);
    reveal_with_fuel(Machine::after, 3);
    step_at(machine, value);
    step_op(machine.step(), D, REGISTER, Operation::Y, Jump::Never);
    push_d_effect(machine.after(2), top);
    after_adds_up(machine, 2, 5);
}

/// `push` from a fixed cell pushes the value of the cell.
pub proof fn push_cell_effect(machine: Machine, cell: u16, top: Word)
    requires
        ready(machine, push_cell_spec(cell)),
        stack_at(machine, top),
        cell < 0x8000,
    ensures
        machine.after(7) == (Machine {
            a: SP as Word,
            d: machine.ram[cell as int],
            pc: (machine.pc + 7) as Word,
            ram: pushed(machine.ram, top, machine.ram[cell as int]),
            ..machine
        }),
{
    let pc = machine.pc as int;
    let load = seq![at_spec(cell), op_spec(D, MEMORY, Operation::Y, Jump::Never)];
    holds_code_in_parts(machine, pc, load, push_d_spec());
    holds_code_at(machine, pc, load, 0);
    holds_code_at(machine, pc, load, 1);
    reveal_with_fuel(Machine::after, 3);
    step_at(machine, cell);
    step_op(machine.step(), D, MEMORY, Operation::Y, Jump::Never);
    push_d_effect(machine.after(2), top);
    after_adds_up(machine, 2, 5);
}

/// `push` from a segment with a base pushes the value of the cell that
/// lies `index` cells behind the address which the cell `base` holds.
pub proof fn push_indirect_effect(machine: Machine, base: u16, index: u16, top: Word)
    requires
        ready(machine, push_indirect_spec(base, index)),
        stack_at(machine, top),
        base < 0x8000,
        index < 0x8000,
        0 <= machine.ram[base as int] + index < 0x8000,
    ensures
        machine.after(10) == (Machine {
            a: SP as Word,
            d: machine.ram[machine.ram[base as int] + index],
            pc: (machine.pc + 10) as Word,
            ram: pushed(machine.ram, top, machine.ram[machine.ram[base as int] + index]),
            ..machine
        }),
{
    let pc = machine.pc as int;
    let load = seq![
        at_spec(index),
        op_spec(D, REGISTER, Operation::Y, Jump::Never),
        at_spec(base),
        op_spec(A, MEMORY, Operation::DPlusY, Jump::Never),
        op_spec(D, MEMORY, Operation::Y, Jump::Never),
    ];
    holds_code_in_parts(machine, pc, load, push_d_spec());
    holds_code_at(machine, pc, load, 0);
    holds_code_at(machine, pc, load, 1);
    holds_code_at(machine, pc, load, 2);
    holds_code_at(machine, pc, load, 3);
    holds_code_at(machine, pc, load, 4);
    reveal_with_fuel(Machine::after, 6);
    let m1 = machine.step();
    step_at(machine, index);
    let m2 = m1.step();
    step_op(m1, D, REGISTER, Operation::Y, Jump::Never);
    let m3 = m2.step();
    step_at(m2, base);
    let m4 = m3.step();
    step_op(m3, A, MEMORY, Operation::DPlusY, Jump::Never);
    step_op(m4, D, MEMORY, Operation::Y, Jump::Never);
    push_d_effect(machine.after(5), top);
    after_adds_up(machine, 5, 5);
}

/// `pop` into a fixed cell takes the topmost value into the cell.
pub proof fn pop_cell_effect(machine: Machine, cell: u16, top: Word)
    requires
        ready(machine, pop_cell_spec(cell)),
        stack_at(machine, top),
        top > STACK,
        cell < 0x8000,
    ensures
        machine.after(5) == (Machine {
            a: cell as Word,
            d: machine.ram[top - 1],
            pc: (machine.pc + 5) as Word,
            ram: store_spec(
                machine.ram.update(SP as int, (top - 1) as Word),
                cell as Word,
                machine.ram[top - 1],
            ),
            ..machine
        }),
{
    let pc = machine.pc as int;
    let store = seq![at_spec(cell), op_spec(M, REGISTER, Operation::D, Jump::Never)];
    holds_code_in_parts(machine, pc, pop_d_spec(), store);
    pop_d_effect(machine, top);
    let m3 = machine.after(3);
    holds_code_at(m3, pc + 3, store, 0);
    holds_code_at(m3, pc + 3, store, 1);
    reveal_with_fuel(Machine::after, 3);
    step_at(m3, cell);
    step_op(m3.step(), M, REGISTER, Operation::D, Jump::Never);
    after_adds_up(machine, 3, 2);
}

/// The instructions of a pop through a base that find the cell.
pub open spec fn aim_spec(base: u16, index: u16) -> Seq<Instruction> {
    seq![
        at_spec(index),
        op_spec(D, REGISTER, Operation::Y, Jump::Never),  // D=A
        at_spec(base),
        op_spec(D, MEMORY, Operation::DPlusY, Jump::Never),  // D=D+M
        at_spec(SCRATCH),
        op_spec(M, REGISTER, Operation::D, Jump::Never),  // M=D
    ]
}

/// The address of the cell goes into the first scratch cell.
proof fn aim_effect(machine: Machine, base: u16, index: u16)
    requires
        ready(machine, aim_spec(base, index)),
        base < 0x8000,
        index < 0x8000,
        0 <= machine.ram[base as int] + index < 0x8000,
    ensures
        machine.after(6) == (Machine {
            a: SCRATCH as Word,
            d: (machine.ram[base as int] + index) as Word,
            pc: (machine.pc + 6) as Word,
            ram: machine.ram.update(SCRATCH as int, (machine.ram[base as int] + index) as Word),
            ..machine
        }),
{
    let pc = machine.pc as int;
    let code = aim_spec(base, index);
    holds_code_at(machine, pc, code, 0);
    holds_code_at(machine, pc, code, 1);
    holds_code_at(machine, pc, code, 2);
    holds_code_at(machine, pc, code, 3);
    holds_code_at(machine, pc, code, 4);
    holds_code_at(machine, pc, code, 5);
    reveal_with_fuel(Machine::after, 7);
    let m1 = machine.step();
    step_at(machine, index);
    let m2 = m1.step();
    step_op(m1, D, REGISTER, Operation::Y, Jump::Never);
    let m3 = m2.step();
    step_at(m2, base);
    let m4 = m3.step();
    step_op(m3, D, MEMORY, Operation::DPlusY, Jump::Never);
    let m5 = m4.step();
    step_at(m4, SCRATCH);
    step_op(m5, M, REGISTER, Operation::D, Jump::Never);
}

/// The instructions of a pop through a base that store the value.
pub open spec fn put_spec() -> Seq<Instruction> {
    seq![
        at_spec(SCRATCH),
        op_spec(A, MEMORY, Operation::Y, Jump::Never),  // A=M
        op_spec(M, REGISTER, Operation::D, Jump::Never),  // M=D
    ]
}

/// The data register goes into the cell that the first scratch cell names.
proof fn put_effect(machine: Machine)
    requires
        ready(machine, put_spec()),
        machine.ram[SCRATCH as int] >= 0,
    ensures
        machine.after(3) == (Machine {
            a: machine.ram[SCRATCH as int],
            pc: (machine.pc + 3) as Word,
            ram: store_spec(machine.ram, machine.ram[SCRATCH as int], machine.d),
            ..machine
        }),
{
    let pc = machine.pc as int;
    let code = put_spec();
    holds_code_at(machine, pc, code, 0);
    holds_code_at(machine, pc, code, 1);
    holds_code_at(machine, pc, code, 2);
    reveal_with_fuel(Machine::after, 4);
    let m1 = machine.step();
    step_at(machine, SCRATCH);
    let m2 = m1.step();
    step_op(m1, A, MEMORY, Operation::Y, Jump::Never);
    step_op(m2, M, REGISTER, Operation::D, Jump::Never);
}

/// `pop` into a segment with a base takes the topmost value into the cell
/// that lies `index` cells behind the address which the cell `base` holds.
/// The address of that cell is left in the first scratch cell.
pub proof fn pop_indirect_effect(machine: Machine, base: u16, index: u16, top: Word)
    requires
        ready(machine, pop_indirect_spec(base, index)),
        stack_at(machine, top),
        top > STACK,
        base < 0x8000,
        index < 0x8000,
        0 <= machine.ram[base as int] + index < 0x8000,
    ensures
        ({
            let target = (machine.ram[base as int] + index) as Word;
            machine.after(12) == (Machine {
                a: target,
                d: machine.ram[top - 1],
                pc: (machine.pc + 12) as Word,
                ram: store_spec(
                    machine.ram.update(SCRATCH as int, target).update(SP as int, (top - 1) as Word),
                    target,
                    machine.ram[top - 1],
                ),
                ..machine
            })
        }),
{
    let pc = machine.pc as int;
    assert(pop_indirect_spec(base, index) =~= aim_spec(base, index) + pop_d_spec() + put_spec());
    holds_code_in_parts(machine, pc, aim_spec(base, index) + pop_d_spec(), put_spec());
    holds_code_in_parts(machine, pc, aim_spec(base, index), pop_d_spec());
    aim_effect(machine, base, index);
    pop_d_effect(machine.after(6), top);
    after_adds_up(machine, 6, 3);
    put_effect(machine.after(9));
    after_adds_up(machine, 9, 3);
}

/// A command with two operands replaces the two topmost values by the
/// result of `operation` on the upper and the lower one.
pub proof fn binary_effect(machine: Machine, operation: Operation, top: Word)
    requires
        ready(machine, binary_spec(operation)),
        stack_at(machine, top),
        top >= STACK + 2,
    ensures
        machine.after(5) == (Machine {
            a: (top - 2) as Word,
            d: machine.ram[top - 1],
            pc: (machine.pc + 5) as Word,
            ram: machine.ram.update(SP as int, (top - 1) as Word).update(
                top - 2,
                operation.apply(machine.ram[top - 1], machine.ram[top - 2]),
            ),
            ..machine
        }),
{
    let pc = machine.pc as int;
    let compute = seq![
        op_spec(A, REGISTER, Operation::DecY, Jump::Never),
        op_spec(M, MEMORY, operation, Jump::Never),
    ];
    holds_code_in_parts(machine, pc, pop_d_spec(), compute);
    pop_d_effect(machine, top);
    let m3 = machine.after(3);
    holds_code_at(m3, pc + 3, compute, 0);
    holds_code_at(m3, pc + 3, compute, 1);
    reveal_with_fuel(Machine::after, 3);
    step_op(m3, A, REGISTER, Operation::DecY, Jump::Never);
    step_op(m3.step(), M, MEMORY, operation, Jump::Never);
    after_adds_up(machine, 3, 2);
}

/// A command with one operand replaces the topmost value by the result of
/// `operation` on it.
pub proof fn unary_effect(machine: Machine, operation: Operation, top: Word)
    requires
        ready(machine, unary_spec(operation)),
        stack_at(machine, top),
        top > STACK,
    ensures
        machine.after(3) == (Machine {
            a: (top - 1) as Word,
            pc: (machine.pc + 3) as Word,
            ram: machine.ram.update(top - 1, operation.apply(machine.d, machine.ram[top - 1])),
            ..machine
        }),
{
    let pc = machine.pc as int;
    let code = unary_spec(operation);
    holds_code_at(machine, pc, code, 0);
    holds_code_at(machine, pc, code, 1);
    holds_code_at(machine, pc, code, 2);
    reveal_with_fuel(Machine::after, 4);
    let m1 = machine.step();
    step_at(machine, SP);
    let m2 = m1.step();
    step_op(m1, A, MEMORY, Operation::DecY, Jump::Never);
    step_op(m2, M, MEMORY, operation, Jump::Never);
}

/// The number of steps that a comparison takes: fewer when it holds.
pub open spec fn compare_steps(holds: bool) -> nat {
    if holds {
        8
    } else {
        11
    }
}

/// The instructions of a comparison behind the pop.
pub open spec fn decide_spec(jump: Jump, end: u16) -> Seq<Instruction> {
    seq![
        op_spec(A, REGISTER, Operation::DecY, Jump::Never),  // A=A-1
        op_spec(D, MEMORY, Operation::YMinusD, Jump::Never),  // D=M-D
        op_spec(M, REGISTER, Operation::MinusOne, Jump::Never),  // M=-1
        at_spec(end),
        op_spec(NOWHERE, REGISTER, Operation::D, jump),
    ]
}

/// The instructions of a comparison that make the result 0.
pub open spec fn deny_spec() -> Seq<Instruction> {
    seq![
        at_spec(SP),
        op_spec(A, MEMORY, Operation::DecY, Jump::Never),  // A=M-1
        op_spec(M, REGISTER, Operation::Zero, Jump::Never),  // M=0
    ]
}

/// With the upper operand in the data register and the address register at
/// its cell, the lower operand is replaced by -1, and the machine jumps to
/// `end` if the difference meets the condition.
proof fn decide_effect(machine: Machine, jump: Jump, end: u16, upper: Word)
    requires
        ready(machine, decide_spec(jump, end)),
        machine.a == upper,
        STACK < upper < SCREEN,
        end < 0x8000,
    ensures
        ({
            let difference = wrap16(machine.ram[upper - 1] - machine.d);
            machine.after(5) == (Machine {
                a: end as Word,
                d: difference,
                pc: if jump.holds_spec(difference) { end as Word } else { (machine.pc + 5) as Word },
                ram: machine.ram.update(upper - 1, -1i16),
                ..machine
            })
        }),
{
    let pc = machine.pc as int;
    let code = decide_spec(jump, end);
    holds_code_at(machine, pc, code, 0);
    holds_code_at(machine, pc, code, 1);
    holds_code_at(machine, pc, code, 2);
    holds_code_at(machine, pc, code, 3);
    holds_code_at(machine, pc, code, 4);
    reveal_with_fuel(Machine::after, 6);
    let m1 = machine.step();
    step_op(machine, A, REGISTER, Operation::DecY, Jump::Never);
    let m2 = m1.step();
    step_op(m1, D, MEMORY, Operation::YMinusD, Jump::Never);
    let m3 = m2.step();
    step_op(m2, M, REGISTER, Operation::MinusOne, Jump::Never);
    let m4 = m3.step();
    step_at(m3, end);
    step_op(m4, NOWHERE, REGISTER, Operation::D, jump);
}

/// The topmost value is replaced by 0.
proof fn deny_effect(machine: Machine, top: Word)
    requires
        ready(machine, deny_spec()),
        stack_at(machine, top),
        top > STACK,
    ensures
        machine.after(3) == (Machine {
            a: (top - 1) as Word,
            pc: (machine.pc + 3) as Word,
            ram: machine.ram.update(top - 1, 0i16),
            ..machine
        }),
{
    let pc = machine.pc as int;
    let code = deny_spec();
    holds_code_at(machine, pc, code, 0);
    holds_code_at(machine, pc, code, 1);
    holds_code_at(machine, pc, code, 2);
    reveal_with_fuel(Machine::after, 4);
    let m1 = machine.step();
    step_at(machine, SP);
    let m2 = m1.step();
    step_op(m1, A, MEMORY, Operation::DecY, Jump::Never);
    step_op(m2, M, REGISTER, Operation::Zero, Jump::Never);
}

/// A comparison replaces the two topmost values by -1 if the lower one
/// minus the upper one, reckoned in machine words, meets the condition, and
/// by 0 if not. Either way the machine is then at the end of the code.
pub proof fn compare_effect(machine: Machine, jump: Jump, top: Word)
    requires
        ready(machine, compare_spec(jump, (machine.pc + 11) as u16)),
        stack_at(machine, top),
        top >= STACK + 2,
    ensures
        ({
            let difference = wrap16(machine.ram[top - 2] - machine.ram[top - 1]);
            let holds = jump.holds_spec(difference);
            machine.after(compare_steps(holds)) == (Machine {
                a: if holds { (machine.pc + 11) as Word } else { (top - 2) as Word },
                d: difference,
                pc: (machine.pc + 11) as Word,
                ram: machine.ram.update(SP as int, (top - 1) as Word).update(
                    top - 2,
                    if holds { -1i16 } else { 0i16 },
                ),
                ..machine
            })
        }),
{
    let pc = machine.pc as int;
    let end = (machine.pc + 11) as u16;
    assert(compare_spec(jump, end) =~= pop_d_spec() + decide_spec(jump, end) + deny_spec());
    holds_code_in_parts(machine, pc, pop_d_spec() + decide_spec(jump, end), deny_spec());
    holds_code_in_parts(machine, pc, pop_d_spec(), decide_spec(jump, end));
    pop_d_effect(machine, top);
    let m3 = machine.after(3);
    decide_effect(m3, jump, end, (top - 1) as Word);
    after_adds_up(machine, 3, 5);
    let m8 = machine.after(8);
    let difference = wrap16(machine.ram[top - 2] - machine.ram[top - 1]);
    if !jump.holds_spec(difference) {
        deny_effect(m8, (top - 1) as Word);
        after_adds_up(machine, 8, 3);
        assert(machine.after(11).ram =~= machine.ram.update(SP as int, (top - 1) as Word).update(
            top - 2,
            0i16,
        ));
    }
}

/// `goto` continues at its target.
pub proof fn goto_effect(machine: Machine, target: u16)
    requires
        ready(machine, goto_spec(target)),
        target < 0x8000,
    ensures
        machine.after(2) == (Machine { a: target as Word, pc: target as Word, ..machine }),
{
    let pc = machine.pc as int;
    let code = goto_spec(target);
    holds_code_at(machine, pc, code, 0);
    holds_code_at(machine, pc, code, 1);
    reveal_with_fuel(Machine::after, 3);
    step_at(machine, target);
    step_op(machine.step(), NOWHERE, REGISTER, Operation::Zero, Jump::Always);
}

/// `if-goto` takes the topmost value from the stack and continues at its
/// target if the value is not zero, and behind itself if it is.
pub proof fn if_goto_effect(machine: Machine, target: u16, top: Word)
    requires
        ready(machine, if_goto_spec(target)),
        stack_at(machine, top),
        top > STACK,
        target < 0x8000,
    ensures
        machine.after(5) == (Machine {
            a: target as Word,
            d: machine.ram[top - 1],
            pc: if machine.ram[top - 1] != 0 { target as Word } else { (machine.pc + 5) as Word },
            ram: machine.ram.update(SP as int, (top - 1) as Word),
            ..machine
        }),
{
    let pc = machine.pc as int;
    let jump = seq![at_spec(target), op_spec(NOWHERE, REGISTER, Operation::D, Jump::NotEqual)];
    holds_code_in_parts(machine, pc, pop_d_spec(), jump);
    pop_d_effect(machine, top);
    let m3 = machine.after(3);
    holds_code_at(m3, pc + 3, jump, 0);
    holds_code_at(m3, pc + 3, jump, 1);
    reveal_with_fuel(Machine::after, 3);
    step_at(m3, target);
    step_op(m3.step(), NOWHERE, REGISTER, Operation::D, Jump::NotEqual);
    after_adds_up(machine, 3, 2);
}

/// The data memory with `count` zeros pushed on a stack whose pointer is `top`.
pub open spec fn with_locals(ram: Seq<Word>, top: Word, count: int) -> Seq<Word>
    decreases count,
{
    if count <= 0 {
        ram
    } else {
        with_locals(ram, top, count - 1).update(top + count - 1, 0i16).update(
            SP as int,
            (top + count) as Word,
        )
    }
}

/// One local variable is a zero pushed.
pub proof fn local_effect(machine: Machine, top: Word)
    requires
        ready(machine, local_spec()),
        stack_at(machine, top),
    ensures
        machine.after(4) == (Machine {
            a: top,
            pc: (machine.pc + 4) as Word,
            ram: machine.ram.update(top as int, 0i16).update(SP as int, (top + 1) as Word),
            ..machine
        }),
{
    let pc = machine.pc as int;
    let code = local_spec();
    holds_code_at(machine, pc, code, 0);
    holds_code_at(machine, pc, code, 1);
    holds_code_at(machine, pc, code, 2);
    holds_code_at(machine, pc, code, 3);
    reveal_with_fuel(Machine::after, 5);
    let m1 = machine.step();
    step_at(machine, SP);
    let m2 = m1.step();
    step_op(m1, AM, MEMORY, Operation::IncY, Jump::Never);
    let m3 = m2.step();
    step_op(m2, A, REGISTER, Operation::DecY, Jump::Never);
    let m4 = m3.step();
    step_op(m3, M, REGISTER, Operation::Zero, Jump::Never);
    assert(m4.ram =~= machine.ram.update(top as int, 0i16).update(SP as int, (top + 1) as Word));
}

/// Zeros pushed leave a data memory of the same size, with the stack
/// pointer behind them.
proof fn with_locals_shape(ram: Seq<Word>, top: Word, count: int)
    requires
        ram.len() == 32768,
        ram[SP as int] == top,
        0 <= count,
        STACK <= top,
        top + count <= SCREEN,
    ensures
        with_locals(ram, top, count).len() == 32768,
        with_locals(ram, top, count)[SP as int] == top + count,
    decreases count,
{
    if count > 0 {
        with_locals_shape(ram, top, count - 1);
    }
}

/// The local variables of a function are zeros pushed, one for each.
pub proof fn function_effect(machine: Machine, locals: int, top: Word)
    requires
        0 <= locals,
        ready(machine, repeat(local_spec(), locals)),
        stack_at(machine, top),
        top + locals <= SCREEN,
    ensures
        machine.after((4 * locals) as nat) == (Machine {
            a: if locals > 0 { (top + locals - 1) as Word } else { machine.a },
            pc: (machine.pc + 4 * locals) as Word,
            ram: with_locals(machine.ram, top, locals),
            ..machine
        }),
    decreases locals,
{
    if locals > 0 {
        let pc = machine.pc as int;
        let before = repeat(local_spec(), locals - 1);
        repeat_has_length(local_spec(), locals - 1);
        local_length();
        assert(before.len() == 4 * (locals - 1)) by (nonlinear_arith)
            requires
                before.len() == (locals - 1) * local_spec().len(),
                local_spec().len() == 4,
        ;
        assert(repeat(local_spec(), locals) == before + local_spec());
        holds_code_in_parts(machine, pc, before, local_spec());
        function_effect(machine, locals - 1, top);
        let reached = machine.after((4 * (locals - 1)) as nat);
        with_locals_shape(machine.ram, top, locals - 1);
        local_effect(reached, (top + locals - 1) as Word);
        after_adds_up(machine, (4 * (locals - 1)) as nat, 4);
    }
}

/// The data memory after a call from a stack whose pointer is `top`: the
/// return address `back` and the four segment cells are pushed, the argument
/// segment starts at the first of the `arguments` values below them, and the
/// local segment starts behind them.
pub open spec fn called(ram: Seq<Word>, top: Word, arguments: u16, back: u16) -> Seq<Word> {
    ram.update(top as int, back as Word).update(top + 1, ram[LCL as int]).update(
        top + 2,
        ram[ARG as int],
    ).update(top + 3, ram[THIS as int]).update(top + 4, ram[THAT as int]).update(
        SP as int,
        (top + 5) as Word,
    ).update(ARG as int, (top - arguments) as Word).update(LCL as int, (top + 5) as Word)
}

/// The instructions of a call behind the pushes.
pub open spec fn enter_spec(target: u16, arguments: u16) -> Seq<Instruction> {
    seq![
        at_spec(SP),
        op_spec(D, MEMORY, Operation::Y, Jump::Never),  // D=M
        at_spec((arguments + 5) as u16),
        op_spec(D, REGISTER, Operation::DMinusY, Jump::Never),  // D=D-A
        at_spec(ARG),
        op_spec(M, REGISTER, Operation::D, Jump::Never),  // M=D
        at_spec(SP),
        op_spec(D, MEMORY, Operation::Y, Jump::Never),  // D=M
        at_spec(LCL),
        op_spec(M, REGISTER, Operation::D, Jump::Never),  // M=D
        at_spec(target),
        op_spec(NOWHERE, REGISTER, Operation::Zero, Jump::Always),  // 0;JMP
    ]
}

/// With the frame pushed, the argument segment is set to start `arguments`
/// cells below the frame, the local segment to start behind it, and the
/// machine continues at `target`.
proof fn enter_effect(machine: Machine, target: u16, arguments: u16, top: Word)
    requires
        ready(machine, enter_spec(target, arguments)),
        machine.ram[SP as int] == top,
        STACK + 5 <= top <= SCREEN,
        arguments + 5 <= top - STACK,
        target < 0x8000,
    ensures
        machine.after(12) == (Machine {
            a: target as Word,
            d: top,
            pc: target as Word,
            ram: machine.ram.update(ARG as int, (top - arguments - 5) as Word).update(
                LCL as int,
                top,
            ),
            ..machine
        }),
{
    let pc = machine.pc as int;
    let code = enter_spec(target, arguments);
    holds_code_at(machine, pc, code, 0);
    holds_code_at(machine, pc, code, 1);
    holds_code_at(machine, pc, code, 2);
    holds_code_at(machine, pc, code, 3);
    holds_code_at(machine, pc, code, 4);
    holds_code_at(machine, pc, code, 5);
    holds_code_at(machine, pc, code, 6);
    holds_code_at(machine, pc, code, 7);
    holds_code_at(machine, pc, code, 8);
    holds_code_at(machine, pc, code, 9);
    holds_code_at(machine, pc, code, 10);
    holds_code_at(machine, pc, code, 11);
    reveal_with_fuel(Machine::after, 13);
    let t1 = machine.step();
    step_at(machine, SP);
    let t2 = t1.step();
    step_op(t1, D, MEMORY, Operation::Y, Jump::Never);
    let t3 = t2.step();
    step_at(t2, (arguments + 5) as u16);
    let t4 = t3.step();
    step_op(t3, D, REGISTER, Operation::DMinusY, Jump::Never);
    let t5 = t4.step();
    step_at(t4, ARG);
    let t6 = t5.step();
    step_op(t5, M, REGISTER, Operation::D, Jump::Never);
    let t7 = t6.step();
    step_at(t6, SP);
    let t8 = t7.step();
    step_op(t7, D, MEMORY, Operation::Y, Jump::Never);
    let t9 = t8.step();
    step_at(t8, LCL);
    let t10 = t9.step();
    step_op(t9, M, REGISTER, Operation::D, Jump::Never);
    let t11 = t10.step();
    step_at(t10, target);
    step_op(t11, NOWHERE, REGISTER, Operation::Zero, Jump::Always);
}

/// The instructions of a call that push the return address and the four
/// segment cells.
pub open spec fn save_spec(back: u16) -> Seq<Instruction> {
    push_constant_spec(back) + push_cell_spec(LCL) + push_cell_spec(ARG) + push_cell_spec(THIS)
        + push_cell_spec(THAT)
}

/// The return address and the four segment cells are pushed.
proof fn save_effect(machine: Machine, back: u16, top: Word)
    requires
        ready(machine, save_spec(back)),
        stack_at(machine, top),
        top + 5 <= SCREEN,
        back < 0x8000,
    ensures
        machine.after(35) == (Machine {
            a: SP as Word,
            d: machine.ram[THAT as int],
            pc: (machine.pc + 35) as Word,
            ram: machine.ram.update(top as int, back as Word).update(
                top + 1,
                machine.ram[LCL as int],
            ).update(top + 2, machine.ram[ARG as int]).update(top + 3, machine.ram[THIS as int]).update(
                top + 4,
                machine.ram[THAT as int],
            ).update(SP as int, (top + 5) as Word),
            ..machine
        }),
{
    let pc = machine.pc as int;
    push_constant_length(back);
    push_cell_length(LCL);
    push_cell_length(ARG);
    push_cell_length(THIS);
    push_cell_length(THAT);
    holds_code_in_parts(
        machine,
        pc,
        push_constant_spec(back) + push_cell_spec(LCL) + push_cell_spec(ARG) + push_cell_spec(THIS),
        push_cell_spec(THAT),
    );
    holds_code_in_parts(
        machine,
        pc,
        push_constant_spec(back) + push_cell_spec(LCL) + push_cell_spec(ARG),
        push_cell_spec(THIS),
    );
    holds_code_in_parts(
        machine,
        pc,
        push_constant_spec(back) + push_cell_spec(LCL),
        push_cell_spec(ARG),
    );
    holds_code_in_parts(machine, pc, push_constant_spec(back), push_cell_spec(LCL));
    push_constant_effect(machine, back, top);
    let m7 = machine.after(7);
    push_cell_effect(m7, LCL, (top + 1) as Word);
    after_adds_up(machine, 7, 7);
    let m14 = machine.after(14);
    push_cell_effect(m14, ARG, (top + 2) as Word);
    after_adds_up(machine, 14, 7);
    let m21 = machine.after(21);
    push_cell_effect(m21, THIS, (top + 3) as Word);
    after_adds_up(machine, 21, 7);
    let m28 = machine.after(28);
    push_cell_effect(m28, THAT, (top + 4) as Word);
    after_adds_up(machine, 28, 7);
    assert(machine.after(35).ram =~= machine.ram.update(top as int, back as Word).update(
        top + 1,
        machine.ram[LCL as int],
    ).update(top + 2, machine.ram[ARG as int]).update(top + 3, machine.ram[THIS as int]).update(
        top + 4,
        machine.ram[THAT as int],
    ).update(SP as int, (top + 5) as Word));
}

/// `call` saves the return address and the caller's segments on the stack,
/// sets up the segments of the callee and continues at the function.
pub proof fn call_effect(machine: Machine, target: u16, arguments: u16, back: u16, top: Word)
    requires
        ready(machine, call_spec(target, arguments, back)),
        stack_at(machine, top),
        top + 5 <= SCREEN,
        arguments <= top - STACK,
        target < 0x8000,
        back < 0x8000,
    ensures
        machine.after(47) == (Machine {
            a: target as Word,
            d: (top + 5) as Word,
            pc: target as Word,
            ram: called(machine.ram, top, arguments, back),
            ..machine
        }),
{
    let pc = machine.pc as int;
    assert(call_spec(target, arguments, back) =~= save_spec(back) + enter_spec(target, arguments));
    push_constant_length(back);
    push_cell_length(LCL);
    push_cell_length(ARG);
    push_cell_length(THIS);
    push_cell_length(THAT);
    holds_code_in_parts(machine, pc, save_spec(back), enter_spec(target, arguments));
    save_effect(machine, back, top);
    enter_effect(machine.after(35), target, arguments, (top + 5) as Word);
    after_adds_up(machine, 35, 12);
    assert(machine.after(47).ram =~= called(machine.ram, top, arguments, back));
}

/// The data memory after a return, where `frame` is the base of the local
/// segment, `argument` the base of the argument segment and `top` the stack
/// pointer: the topmost value stands where the first argument was, the
/// stack ends behind it, and the four segment cells hold what was saved
/// below `frame`.
pub open spec fn returned(ram: Seq<Word>, frame: Word, argument: Word, top: Word) -> Seq<Word> {
    ram.update(SCRATCH2 as int, ram[frame - 5]).update(argument as int, ram[top - 1]).update(
        SP as int,
        (argument + 1) as Word,
    ).update(SCRATCH as int, (frame - 4) as Word).update(THAT as int, ram[frame - 1]).update(
        THIS as int,
        ram[frame - 2],
    ).update(ARG as int, ram[frame - 3]).update(LCL as int, ram[frame - 4])
}

/// Taking a saved value down from the frame: the first scratch cell moves
/// down by one, and `cell` gets the value of the cell it then names.
pub proof fn restore_effect(machine: Machine, cell: u16, frame: Word)
    requires
        ready(machine, restore_spec(cell)),
        machine.ram[SCRATCH as int] == frame,
        STACK < frame <= SCREEN,
        cell < SCRATCH,
    ensures
        machine.after(5) == (Machine {
            a: cell as Word,
            d: machine.ram[frame - 1],
            pc: (machine.pc + 5) as Word,
            ram: machine.ram.update(SCRATCH as int, (frame - 1) as Word).update(
                cell as int,
                machine.ram[frame - 1],
            ),
            ..machine
        }),
{
    let pc = machine.pc as int;
    let code = restore_spec(cell);
    holds_code_at(machine, pc, code, 0);
    holds_code_at(machine, pc, code, 1);
    holds_code_at(machine, pc, code, 2);
    holds_code_at(machine, pc, code, 3);
    holds_code_at(machine, pc, code, 4);
    reveal_with_fuel(Machine::after, 6);
    let m1 = machine.step();
    step_at(machine, SCRATCH);
    let m2 = m1.step();
    step_op(m1, AM, MEMORY, Operation::DecY, Jump::Never);
    let m3 = m2.step();
    step_op(m2, D, MEMORY, Operation::Y, Jump::Never);
    let m4 = m3.step();
    step_at(m3, cell);
    step_op(m4, M, REGISTER, Operation::D, Jump::Never);
}

/// The instructions of a return before the pop.
pub open spec fn leave_spec() -> Seq<Instruction> {
    seq![
        at_spec(LCL),
        op_spec(D, MEMORY, Operation::Y, Jump::Never),  // D=M
        at_spec(SCRATCH),
        op_spec(M, REGISTER, Operation::D, Jump::Never),  // M=D
        at_spec(5),
        op_spec(A, REGISTER, Operation::DMinusY, Jump::Never),  // A=D-A
        op_spec(D, MEMORY, Operation::Y, Jump::Never),  // D=M
        at_spec(SCRATCH2),
        op_spec(M, REGISTER, Operation::D, Jump::Never),  // M=D
    ]
}

/// The base of the frame goes into the first scratch cell and the return
/// address into the second.
proof fn leave_effect(machine: Machine, frame: Word)
    requires
        ready(machine, leave_spec()),
        machine.ram[LCL as int] == frame,
        STACK + 5 <= frame <= SCREEN,
    ensures
        machine.after(9) == (Machine {
            a: SCRATCH2 as Word,
            d: machine.ram[frame - 5],
            pc: (machine.pc + 9) as Word,
            ram: machine.ram.update(SCRATCH as int, frame).update(
                SCRATCH2 as int,
                machine.ram[frame - 5],
            ),
            ..machine
        }),
{
    let pc = machine.pc as int;
    let code = leave_spec();
    holds_code_at(machine, pc, code, 0);
    holds_code_at(machine, pc, code, 1);
    holds_code_at(machine, pc, code, 2);
    holds_code_at(machine, pc, code, 3);
    holds_code_at(machine, pc, code, 4);
    holds_code_at(machine, pc, code, 5);
    holds_code_at(machine, pc, code, 6);
    holds_code_at(machine, pc, code, 7);
    holds_code_at(machine, pc, code, 8);
    reveal_with_fuel(Machine::after, 10);
    let h1 = machine.step();
    step_at(machine, LCL);
    let h2 = h1.step();
    step_op(h1, D, MEMORY, Operation::Y, Jump::Never);
    let h3 = h2.step();
    step_at(h2, SCRATCH);
    let h4 = h3.step();
    step_op(h3, M, REGISTER, Operation::D, Jump::Never);
    let h5 = h4.step();
    step_at(h4, 5);
    let h6 = h5.step();
    step_op(h5, A, REGISTER, Operation::DMinusY, Jump::Never);
    let h7 = h6.step();
    step_op(h6, D, MEMORY, Operation::Y, Jump::Never);
    let h8 = h7.step();
    step_at(h7, SCRATCH2);
    step_op(h8, M, REGISTER, Operation::D, Jump::Never);
}

/// The instructions of a return that hand the result over.
pub open spec fn hand_over_spec() -> Seq<Instruction> {
    seq![
        at_spec(ARG),
        op_spec(A, MEMORY, Operation::Y, Jump::Never),  // A=M
        op_spec(M, REGISTER, Operation::D, Jump::Never),  // M=D
        at_spec(ARG),
        op_spec(D, MEMORY, Operation::IncY, Jump::Never),  // D=M+1
        at_spec(SP),
        op_spec(M, REGISTER, Operation::D, Jump::Never),  // M=D
    ]
}

/// The data register goes to the first cell of the argument segment, and
/// the stack ends behind it.
proof fn hand_over_effect(machine: Machine, argument: Word)
    requires
        ready(machine, hand_over_spec()),
        machine.ram[ARG as int] == argument,
        STACK <= argument < SCREEN,
    ensures
        machine.after(7) == (Machine {
            a: SP as Word,
            d: (argument + 1) as Word,
            pc: (machine.pc + 7) as Word,
            ram: machine.ram.update(argument as int, machine.d).update(
                SP as int,
                (argument + 1) as Word,
            ),
            ..machine
        }),
{
    let pc = machine.pc as int;
    let code = hand_over_spec();
    holds_code_at(machine, pc, code, 0);
    holds_code_at(machine, pc, code, 1);
    holds_code_at(machine, pc, code, 2);
    holds_code_at(machine, pc, code, 3);
    holds_code_at(machine, pc, code, 4);
    holds_code_at(machine, pc, code, 5);
    holds_code_at(machine, pc, code, 6);
    reveal_with_fuel(Machine::after, 8);
    let n1 = machine.step();
    step_at(machine, ARG);
    let n2 = n1.step();
    step_op(n1, A, MEMORY, Operation::Y, Jump::Never);
    let n3 = n2.step();
    step_op(n2, M, REGISTER, Operation::D, Jump::Never);
    let n4 = n3.step();
    step_at(n3, ARG);
    let n5 = n4.step();
    step_op(n4, D, MEMORY, Operation::IncY, Jump::Never);
    let n6 = n5.step();
    step_at(n5, SP);
    step_op(n6, M, REGISTER, Operation::D, Jump::Never);
}

/// The instructions of a return that restore the caller's segments.
pub open spec fn restore_all_spec() -> Seq<Instruction> {
    restore_spec(THAT) + restore_spec(THIS) + restore_spec(ARG) + restore_spec(LCL)
}

/// The four segment cells get the values saved below the frame.
proof fn restore_all_effect(machine: Machine, frame: Word)
    requires
        ready(machine, restore_all_spec()),
        machine.ram[SCRATCH as int] == frame,
        STACK + 5 <= frame <= SCREEN,
    ensures
        machine.after(20) == (Machine {
            a: LCL as Word,
            d: machine.ram[frame - 4],
            pc: (machine.pc + 20) as Word,
            ram: machine.ram.update(SCRATCH as int, (frame - 4) as Word).update(
                THAT as int,
                machine.ram[frame - 1],
            ).update(THIS as int, machine.ram[frame - 2]).update(
                ARG as int,
                machine.ram[frame - 3],
            ).update(LCL as int, machine.ram[frame - 4]),
            ..machine
        }),
{
    let pc = machine.pc as int;
    restore_length(THAT);
    restore_length(THIS);
    restore_length(ARG);
    restore_length(LCL);
    holds_code_in_parts(
        machine,
        pc,
        restore_spec(THAT) + restore_spec(THIS) + restore_spec(ARG),
        restore_spec(LCL),
    );
    holds_code_in_parts(machine, pc, restore_spec(THAT) + restore_spec(THIS), restore_spec(ARG));
    holds_code_in_parts(machine, pc, restore_spec(THAT), restore_spec(THIS));
    restore_effect(machine, THAT, frame);
    let m5 = machine.after(5);
    restore_effect(m5, THIS, (frame - 1) as Word);
    after_adds_up(machine, 5, 5);
    let m10 = machine.after(10);
    restore_effect(m10, ARG, (frame - 2) as Word);
    after_adds_up(machine, 10, 5);
    let m15 = machine.after(15);
    restore_effect(m15, LCL, (frame - 3) as Word);
    after_adds_up(machine, 15, 5);
    assert(machine.after(20).ram =~= machine.ram.update(SCRATCH as int, (frame - 4) as Word).update(
        THAT as int,
        machine.ram[frame - 1],
    ).update(THIS as int, machine.ram[frame - 2]).update(ARG as int, machine.ram[frame - 3]).update(
        LCL as int,
        machine.ram[frame - 4],
    ));
}

/// The instructions of a return that go back to the caller.
pub open spec fn go_back_spec() -> Seq<Instruction> {
    seq![
        at_spec(SCRATCH2),
        op_spec(A, MEMORY, Operation::Y, Jump::Never),  // A=M
        op_spec(NOWHERE, REGISTER, Operation::Zero, Jump::Always),  // 0;JMP
    ]
}

/// The machine continues at the address in the second scratch cell.
proof fn go_back_effect(machine: Machine)
    requires
        ready(machine, go_back_spec()),
    ensures
        machine.after(3) == (Machine {
            a: machine.ram[SCRATCH2 as int],
            pc: machine.ram[SCRATCH2 as int],
            ..machine
        }),
{
    let pc = machine.pc as int;
    let code = go_back_spec();
    holds_code_at(machine, pc, code, 0);
    holds_code_at(machine, pc, code, 1);
    holds_code_at(machine, pc, code, 2);
    reveal_with_fuel(Machine::after, 4);
    let e1 = machine.step();
    step_at(machine, SCRATCH2);
    let e2 = e1.step();
    step_op(e1, A, MEMORY, Operation::Y, Jump::Never);
    step_op(e2, NOWHERE, REGISTER, Operation::Zero, Jump::Always);
}

/// `return` puts the topmost value where the first argument of the call
/// was, makes the stack end behind it, gives the caller its segments back
/// and continues at the return address.
pub proof fn return_effect(machine: Machine, frame: Word, argument: Word, top: Word)
    requires
        ready(machine, ret_spec()),
        stack_at(machine, top),
        top > STACK,
        machine.ram[LCL as int] == frame,
        machine.ram[ARG as int] == argument,
        STACK <= argument,
        argument + 5 <= frame <= SCREEN,
    ensures
        machine.after(42) == (Machine {
            a: machine.ram[frame - 5],
            d: machine.ram[frame - 4],
            pc: machine.ram[frame - 5],
            ram: returned(machine.ram, frame, argument, top),
            ..machine
        }),
{
    let pc = machine.pc as int;
    let c1 = leave_spec() + pop_d_spec();
    let c2 = c1 + hand_over_spec();
    let c3 = c2 + restore_all_spec();
    assert(ret_spec() =~= c3 + go_back_spec());
    restore_length(THAT);
    restore_length(THIS);
    restore_length(ARG);
    restore_length(LCL);
    holds_code_in_parts(machine, pc, c3, go_back_spec());
    holds_code_in_parts(machine, pc, c2, restore_all_spec());
    holds_code_in_parts(machine, pc, c1, hand_over_spec());
    holds_code_in_parts(machine, pc, leave_spec(), pop_d_spec());
    leave_effect(machine, frame);
    let m9 = machine.after(9);
    pop_d_effect(m9, top);
    after_adds_up(machine, 9, 3);
    let m12 = machine.after(12);
    hand_over_effect(m12, argument);
    after_adds_up(machine, 12, 7);
    let m19 = machine.after(19);
    restore_all_effect(m19, frame);
    after_adds_up(machine, 19, 20);
    let m39 = machine.after(39);
    go_back_effect(m39);
    after_adds_up(machine, 39, 3);
    assert(machine.after(42).ram =~= returned(machine.ram, frame, argument, top));
}

/// After a call and the return from it, the machine continues behind the
/// call with the caller's segments, and the stack is as high as it was
/// before the arguments were pushed, plus the one value returned. `caller`
/// is the machine about to call with its stack pointer at `top`; `callee` is
/// the machine about to return, with its stack pointer at `height`, above a
/// frame that is as the call left it.
pub proof fn call_then_return(
    caller: Machine,
    callee: Machine,
    target: u16,
    arguments: u16,
    back: u16,
    top: Word,
    height: Word,
)
    requires
        ready(caller, call_spec(target, arguments, back)),
        stack_at(caller, top),
        top + 5 <= SCREEN,
        arguments <= top - STACK,
        target < 0x8000,
        back < 0x8000,
        ready(callee, ret_spec()),
        stack_at(callee, height),
        height > top + 5,
        callee.ram[LCL as int] == caller.after(47).ram[LCL as int],
        callee.ram[ARG as int] == caller.after(47).ram[ARG as int],
        forall|cell: int| top <= cell < top + 5 ==> callee.ram[cell] == caller.after(47).ram[cell],
    ensures
        callee.after(42).pc == back,
        callee.after(42).ram[SP as int] == top - arguments + 1,
        callee.after(42).ram[top - arguments] == callee.ram[height - 1],
        callee.after(42).ram[LCL as int] == caller.ram[LCL as int],
        callee.after(42).ram[ARG as int] == caller.ram[ARG as int],
        callee.after(42).ram[THIS as int] == caller.ram[THIS as int],
        callee.after(42).ram[THAT as int] == caller.ram[THAT as int],
{
    call_effect(caller, target, arguments, back, top);
    let frame = (top + 5) as Word;
    let argument = (top - arguments) as Word;
    assert(callee.ram[frame - 5] == back as Word);
    assert(callee.ram[frame - 4] == caller.ram[LCL as int]);
    assert(callee.ram[frame - 3] == caller.ram[ARG as int]);
    assert(callee.ram[frame - 2] == caller.ram[THIS as int]);
    assert(callee.ram[frame - 1] == caller.ram[THAT as int]);
    return_effect(callee, frame, argument, height);
}

/// The start-up code makes the stack start at its place and continues at
/// the entry of the program.
pub proof fn boot_effect(machine: Machine, entry: u16)
    requires
        ready(machine, boot_spec(entry)),
        entry < 0x8000,
    ensures
        machine.after(6) == (Machine {
            a: entry as Word,
            d: STACK as Word,
            pc: entry as Word,
            ram: machine.ram.update(SP as int, STACK as Word),
            ..machine
        }),
{
    let pc = machine.pc as int;
    let code = boot_spec(entry);
    holds_code_at(machine, pc, code, 0);
    holds_code_at(machine, pc, code, 1);
    holds_code_at(machine, pc, code, 2);
    holds_code_at(machine, pc, code, 3);
    holds_code_at(machine, pc, code, 4);
    holds_code_at(machine, pc, code, 5);
    reveal_with_fuel(Machine::after, 7);
    let m1 = machine.step();
    step_at(machine, STACK);
    let m2 = m1.step();
    step_op(m1, D, REGISTER, Operation::Y, Jump::Never);
    let m3 = m2.step();
    step_at(m2, SP);
    let m4 = m3.step();
    step_op(m3, M, REGISTER, Operation::D, Jump::Never);
    let m5 = m4.step();
    step_at(m4, entry);
    step_op(m5, NOWHERE, REGISTER, Operation::Zero, Jump::Always);
}

/// The code of the first `count` commands holds the code of each of them at
/// the address of the command.
proof fn code_upto_holds(linked: Linked, count: int, index: int)
    requires
        0 <= index < count <= linked.commands.len(),
    ensures
        linked.code_upto(count).subrange(
            address_of(linked.commands, index),
            address_of(linked.commands, index + 1),
        ) == linked.code_of(index),
    decreases count,
{
    code_reaches_address(linked, count - 1);
    code_reaches_address(linked, count);
    addresses_grow(linked.commands, 0, index);
    let before = linked.code_upto(count - 1);
    let last = linked.code_of(count - 1);
    if index < count - 1 {
        code_upto_holds(linked, count - 1, index);
        addresses_grow(linked.commands, index + 1, count - 1);
        assert((before + last).subrange(
            address_of(linked.commands, index),
            address_of(linked.commands, index + 1),
        ) =~= before.subrange(
            address_of(linked.commands, index),
            address_of(linked.commands, index + 1),
        ));
    } else {
        assert((before + last).subrange(before.len() as int, (before + last).len() as int) =~= last);
    }
}

/// A machine whose instruction memory holds the translation of a program
/// holds the start-up code at address 0 and the code of every command at the
/// address of the command: the laws on what the code of a command does
/// apply whenever the program counter is there.
pub proof fn translation_holds_code(linked: Linked, machine: Machine, index: int)
    requires
        linked.translate() is Ok,
        machine.rom == rom_of(linked.translate().unwrap().0),
        machine.ram.len() == 32768,
        0 <= index < linked.commands.len(),
    ensures
        holds_code(machine, 0, boot_spec(linked.entry() as u16)),
        holds_code(machine, address_of(linked.commands, index), linked.code_of(index)),
{
    let count = linked.commands.len() as int;
    let code = linked.code_upto(count);
    code_reaches_address(linked, count);
    code_reaches_address(linked, 0);
    addresses_grow(linked.commands, 0, index);
    addresses_grow(linked.commands, index + 1, count);
    code_upto_holds(linked, count, index);
    let from = address_of(linked.commands, index);
    let to = address_of(linked.commands, index + 1);
    assert(machine.rom.subrange(from, to) =~= code.subrange(from, to));
    code_holds_boot(linked, count);
    assert(machine.rom.subrange(0, 6) =~= code.subrange(0, 6));
}

/// The code of a program starts with the start-up code.
proof fn code_holds_boot(linked: Linked, count: int)
    requires
        0 <= count <= linked.commands.len(),
    ensures
        linked.code_upto(count).len() >= 6,
        linked.code_upto(count).subrange(0, 6) == boot_spec(linked.entry() as u16),
    decreases count,
{
    code_reaches_address(linked, count);
    addresses_grow(linked.commands, 0, count);
    if count > 0 {
        code_holds_boot(linked, count - 1);
        let before = linked.code_upto(count - 1);
        assert((before + linked.code_of(count - 1)).subrange(0, 6) =~= before.subrange(0, 6));
    } else {
        let boot = boot_spec(linked.entry() as u16);
        assert(boot.subrange(0, 6) =~= boot);
    }
}

/// The operation of the ALU that a command with two operands or one comes
/// down to; none for a comparison.
pub open spec fn operation_of(operation: Arithmetic) -> Option<Operation> {
    match operation {
        Arithmetic::Add => Some(Operation::DPlusY),
        Arithmetic::Sub => Some(Operation::YMinusD),
        Arithmetic::And => Some(Operation::DAndY),
        Arithmetic::Or => Some(Operation::DOrY),
        Arithmetic::Neg => Some(Operation::NegY),
        Arithmetic::Not => Some(Operation::NotY),
        _ => None,
    }
}

/// The condition that a comparison tests the difference of its operands for.
pub open spec fn condition_of(operation: Arithmetic) -> Jump {
    match operation {
        Arithmetic::Eq => Jump::Equal,
        Arithmetic::Gt => Jump::Greater,
        _ => Jump::Less,
    }
}

impl Linked {
    /// Whether `machine` is in a state in which command `index` can be run
    /// as it is meant: the stack lies between its first cell and the
    /// screen and holds the operands of the command, with room for what the
    /// command pushes, and the cells that the command reaches through a
    /// segment lie in the data memory.
    pub open spec fn fits(self, index: int, machine: Machine) -> bool {
        let top = machine.ram[SP as int];
        let roomy = STACK <= top < SCREEN;
        match self.commands[index] {
            Command::Push(segment, value) => roomy && (segment.base_cell_spec() matches Some(base)
                ==> 0 <= machine.ram[base as int] + value < 0x8000),
            Command::Pop(segment, value) => roomy && top > STACK && (
            segment.base_cell_spec() matches Some(base) ==> 0 <= machine.ram[base as int] + value
                < 0x8000),
            Command::Arithmetic(operation) => roomy && if operation == Arithmetic::Neg || operation
                == Arithmetic::Not {
                top > STACK
            } else {
                top >= STACK + 2
            },
            Command::Label(_) => true,
            Command::Goto(_) => true,
            Command::IfGoto(_) => roomy && top > STACK,
            Command::Function(_, locals) => roomy && top + locals <= SCREEN,
            Command::Call(_, arguments) => roomy && top + 5 <= SCREEN && arguments <= top - STACK,
            Command::Return => roomy && top > STACK && STACK <= machine.ram[ARG as int]
                && machine.ram[ARG as int] + 5 <= machine.ram[LCL as int] <= SCREEN,
        }
    }

    /// The number of steps that `machine` takes to run command `index`.
    pub open spec fn steps_of(self, index: int, machine: Machine) -> nat {
        let top = machine.ram[SP as int];
        match self.commands[index] {
            Command::Arithmetic(operation) => if operation_of(operation) is None {
                compare_steps(
                    condition_of(operation).holds_spec(
                        wrap16(machine.ram[top - 2] - machine.ram[top - 1]),
                    ),
                )
            } else {
                size_spec(self.commands[index]) as nat
            },
            _ => size_spec(self.commands[index]) as nat,
        }
    }

    /// The data memory after `machine` has run command `index`.
    pub open spec fn memory_after(self, index: int, machine: Machine) -> Seq<Word> {
        let ram = machine.ram;
        let top = ram[SP as int];
        let popped = ram.update(SP as int, (top - 1) as Word);
        match self.commands[index] {
            Command::Push(segment, value) => pushed(
                ram,
                top,
                if segment == Segment::Constant {
                    value as Word
                } else if segment.base_cell_spec() is Some {
                    ram[ram[segment.base_cell_spec().unwrap() as int] + value]
                } else {
                    ram[Linked::cell(self.file_at(index), segment, value) as int]
                },
            ),
            Command::Pop(segment, value) => if segment.base_cell_spec() is Some {
                store_spec(
                    popped.update(
                        SCRATCH as int,
                        (ram[segment.base_cell_spec().unwrap() as int] + value) as Word,
                    ),
                    (ram[segment.base_cell_spec().unwrap() as int] + value) as Word,
                    ram[top - 1],
                )
            } else {
                store_spec(
                    popped,
                    Linked::cell(self.file_at(index), segment, value) as Word,
                    ram[top - 1],
                )
            },
            Command::Arithmetic(operation) => if operation == Arithmetic::Neg || operation
                == Arithmetic::Not {
                ram.update(top - 1, operation_of(operation).unwrap().apply(machine.d, ram[top - 1]))
            } else if operation_of(operation) is Some {
                popped.update(
                    top - 2,
                    operation_of(operation).unwrap().apply(ram[top - 1], ram[top - 2]),
                )
            } else {
                popped.update(
                    top - 2,
                    if condition_of(operation).holds_spec(wrap16(ram[top - 2] - ram[top - 1])) {
                        -1i16
                    } else {
                        0i16
                    },
                )
            },
            Command::Label(_) => ram,
            Command::Goto(_) => ram,
            Command::IfGoto(_) => popped,
            Command::Function(_, locals) => with_locals(ram, top, locals as int),
            Command::Call(_, arguments) => called(
                ram,
                top,
                arguments,
                address_of(self.commands, index + 1) as u16,
            ),
            Command::Return => returned(ram, ram[LCL as int], ram[ARG as int], top),
        }
    }

    /// The address at which `machine` continues after command `index`: that
    /// of the next command, unless the command jumps, calls or returns.
    pub open spec fn continues_at(self, index: int, machine: Machine) -> int {
        let top = machine.ram[SP as int];
        let next = address_of(self.commands, index + 1);
        let target = address_of(self.commands, self.referent(index).unwrap());
        match self.commands[index] {
            Command::Goto(_) => target,
            Command::IfGoto(_) => if machine.ram[top - 1] != 0 {
                target
            } else {
                next
            },
            Command::Call(_, _) => target,
            Command::Return => machine.ram[machine.ram[LCL as int] - 5] as int,
            _ => next,
        }
    }
}

/// What the machine does with a command of a translated program. Where the
/// program counter is at the command and the state fits it, running the
/// code of the command leaves the data memory and the program counter as
/// the command asks: a push or a pop moves a value between the stack and
/// its segment, an arithmetic command replaces its operands by its result,
/// a jump continues at its label, a function declaration pushes the zeros
/// of its locals, a call builds the frame and enters the function, and a
/// return hands the result over and goes back to the caller.
pub proof fn command_effect(linked: Linked, machine: Machine, index: int)
    requires
        linked.wf(),
        linked.translate() is Ok,
        machine.rom == rom_of(linked.translate().unwrap().0),
        machine.ram.len() == 32768,
        0 <= index < linked.commands.len(),
        machine.pc == address_of(linked.commands, index),
        linked.fits(index, machine),
    ensures
        machine.after(linked.steps_of(index, machine)).ram == linked.memory_after(index, machine),
        machine.after(linked.steps_of(index, machine)).pc == linked.continues_at(index, machine),
        machine.after(linked.steps_of(index, machine)).rom == machine.rom,
{
    translation_holds_code(linked, machine, index);
    let count = linked.commands.len() as int;
    let top = machine.ram[SP as int];
    let command = linked.commands[index];
    let file = linked.file_at(index);
    addresses_grow(linked.commands, 0, index);
    addresses_grow(linked.commands, index + 1, count);
    assert(command.wf());
    assert(linked.fault_at(index) is None) by {
        no_fault(linked, 0, index);
    }
    if linked.referent(index) is Some {
        let referent = linked.referent(index).unwrap();
        referent_is_command(linked, index);
        addresses_grow(linked.commands, 0, referent);
        addresses_grow(linked.commands, referent, count);
    }
    let target = if linked.referent(index) is Some {
        address_of(linked.commands, linked.referent(index).unwrap()) as u16
    } else {
        0
    };
    match command {
        Command::Push(segment, value) => {
            if segment == Segment::Constant {
                push_constant_effect(machine, value, top);
            } else if segment.base_cell_spec() is Some {
                push_indirect_effect(machine, segment.base_cell_spec().unwrap(), value, top);
            } else {
                file_keeps_statics(linked, index);
                push_cell_effect(machine, Linked::cell(file, segment, value), top);
            }
        },
        Command::Pop(segment, value) => {
            if segment.base_cell_spec() is Some {
                pop_indirect_effect(machine, segment.base_cell_spec().unwrap(), value, top);
                assert(linked.memory_after(index, machine) =~= machine.after(12).ram);
            } else {
                file_keeps_statics(linked, index);
                pop_cell_effect(machine, Linked::cell(file, segment, value), top);
            }
        },
        Command::Arithmetic(operation) => {
            match operation {
                Arithmetic::Add => binary_effect(machine, Operation::DPlusY, top),
                Arithmetic::Sub => binary_effect(machine, Operation::YMinusD, top),
                Arithmetic::And => binary_effect(machine, Operation::DAndY, top),
                Arithmetic::Or => binary_effect(machine, Operation::DOrY, top),
                Arithmetic::Neg => unary_effect(machine, Operation::NegY, top),
                Arithmetic::Not => unary_effect(machine, Operation::NotY, top),
                Arithmetic::Eq => compare_effect(machine, Jump::Equal, top),
                Arithmetic::Gt => compare_effect(machine, Jump::Greater, top),
                Arithmetic::Lt => compare_effect(machine, Jump::Less, top),
            }
        },
        Command::Label(_) => {},
        Command::Goto(_) => {
            goto_effect(machine, target);
        },
        Command::IfGoto(_) => {
            if_goto_effect(machine, target, top);
        },
        Command::Function(_, locals) => {
            function_effect(machine, locals as int, top);
        },
        Command::Call(_, arguments) => {
            call_effect(
                machine,
                target,
                arguments,
                (address_of(linked.commands, index) + 47) as u16,
                top,
            );
        },
        Command::Return => {
            return_effect(machine, machine.ram[LCL as int], machine.ram[ARG as int], top);
        },
    }
}

/// However many steps a machine makes, its memories keep their size and its
/// program stays.
pub proof fn after_keeps_shape(machine: Machine, count: nat)
    requires
        machine.ram.len() == 32768,
    ensures
        machine.after(count).ram.len() == 32768,
        machine.after(count).rom == machine.rom,
    decreases count,
{
    if count > 0 {
        after_keeps_shape(machine.step(), (count - 1) as nat);
    }
}

/// The command that a call refers to declares the function that the call
/// names.
proof fn function_is_declared(commands: Seq<Command>, name: usize, from: int, to: int)
    ensures
        function_from(commands, name, from, to) matches Some(at) ==> 0 <= at < commands.len()
            && commands[at] is Function && commands[at]->Function_0 == name,
    decreases to - from,
{
    if 0 <= from < to && from < commands.len() && !(commands[from] matches Command::Function(
        declared,
        _,
    ) && declared == name) {
        function_is_declared(commands, name, from + 1, to);
    }
}

/// A call in a translated program, run to the return from it.
///
/// The machine is at the call `call`, in a state that fits it, with its
/// stack pointer at `top`. The run of 47 steps that the call takes leads to
/// the first instruction of the function that the call names, in whichever
/// file that function is declared. If `between` steps later the run has
/// reached the return `back`, with a value on the stack above the frame and
/// the frame as the call left it, then the 42 steps of the return lead to
/// the command behind the call: the stack is as high as it was before the
/// arguments were pushed, plus the one value returned, which is the topmost
/// value of the callee, and the four segments are the caller's again.
pub proof fn call_runs_to_return(
    linked: Linked,
    machine: Machine,
    call: int,
    back: int,
    between: nat,
)
    requires
        linked.wf(),
        linked.translate() is Ok,
        machine.rom == rom_of(linked.translate().unwrap().0),
        machine.ram.len() == 32768,
        0 <= call < linked.commands.len(),
        linked.commands[call] is Call,
        machine.pc == address_of(linked.commands, call),
        linked.fits(call, machine),
        0 <= back < linked.commands.len(),
        linked.commands[back] == Command::Return,
        ({
            let top = machine.ram[SP as int];
            let entered = machine.after(47);
            let callee = machine.after(47 + between);
            &&& callee.pc == address_of(linked.commands, back)
            &&& top + 5 < callee.ram[SP as int] < SCREEN
            &&& callee.ram[LCL as int] == entered.ram[LCL as int]
            &&& callee.ram[ARG as int] == entered.ram[ARG as int]
            &&& forall|cell: int| top <= cell < top + 5 ==> callee.ram[cell] == entered.ram[cell]
        }),
    ensures
        ({
            let top = machine.ram[SP as int];
            let arguments = linked.commands[call]->Call_1;
            let entered = machine.after(47);
            let callee = machine.after(47 + between);
            let returned = machine.after(47 + between + 42);
            &&& linked.referent(call) is Some
            &&& linked.commands[linked.referent(call).unwrap()] is Function
            &&& linked.commands[linked.referent(call).unwrap()]->Function_0
                == linked.commands[call]->Call_0
            &&& entered.pc == address_of(linked.commands, linked.referent(call).unwrap())
            &&& entered.ram[SP as int] == top + 5
            &&& entered.ram[ARG as int] == top - arguments
            &&& entered.ram[LCL as int] == top + 5
            &&& returned.pc == address_of(linked.commands, call + 1)
            &&& returned.ram[SP as int] == top - arguments + 1
            &&& returned.ram[top - arguments] == callee.ram[callee.ram[SP as int] - 1]
            &&& returned.ram[LCL as int] == machine.ram[LCL as int]
            &&& returned.ram[ARG as int] == machine.ram[ARG as int]
            &&& returned.ram[THIS as int] == machine.ram[THIS as int]
            &&& returned.ram[THAT as int] == machine.ram[THAT as int]
        }),
{
    let count = linked.commands.len() as int;
    let top = machine.ram[SP as int];
    let entered = machine.after(47);
    let callee = machine.after(47 + between);
    no_fault(linked, 0, call);
    function_is_declared(linked.commands, linked.commands[call]->Call_0, 0, count);
    addresses_grow(linked.commands, 0, call + 1);
    addresses_grow(linked.commands, call + 1, count);
    command_effect(linked, machine, call);
    after_keeps_shape(machine, 47 + between);
    assert(linked.fits(back, callee));
    command_effect(linked, callee, back);
    after_adds_up(machine, 47 + between, 42);
}

/// A program that translates has no command at fault.
proof fn no_fault(linked: Linked, from: int, index: int)
    requires
        0 <= from <= index < linked.commands.len(),
        linked.first_fault(from) is None,
    ensures
        linked.fault_at(index) is None,
    decreases index - from,
{
    if from < index {
        no_fault(linked, from + 1, index);
    }
}

/// What a command refers to is a command of the program.
proof fn referent_is_command(linked: Linked, index: int)
    requires
        0 <= index < linked.commands.len(),
        linked.referent(index) is Some,
    ensures
        0 <= linked.referent(index).unwrap() < linked.commands.len(),
{
    let count = linked.commands.len() as int;
    let file = linked.file_at(index);
    match linked.commands[index] {
        Command::Goto(name) => {
            label_is_command(linked.commands, name, file.starting_command_index as int, file.end());
        },
        Command::IfGoto(name) => {
            label_is_command(linked.commands, name, file.starting_command_index as int, file.end());
        },
        Command::Call(name, _) => {
            function_is_command(linked.commands, name, 0, count);
        },
        _ => {},
    }
}

proof fn label_is_command(commands: Seq<Command>, name: usize, from: int, to: int)
    ensures
        label_from(commands, name, from, to) matches Some(at) ==> 0 <= at < commands.len(),
    decreases to - from,
{
    if 0 <= from < to && from < commands.len() && commands[from] != Command::Label(name) {
        label_is_command(commands, name, from + 1, to);
    }
}

proof fn function_is_command(commands: Seq<Command>, name: usize, from: int, to: int)
    ensures
        function_from(commands, name, from, to) matches Some(at) ==> 0 <= at < commands.len(),
    decreases to - from,
{
    if 0 <= from < to && from < commands.len() && !(commands[from] matches Command::Function(
        declared,
        _,
    ) && declared == name) {
        function_is_command(commands, name, from + 1, to);
    }
}

/// The file of a command has its static cells within those of the program.
proof fn file_keeps_statics(linked: Linked, index: int)
    requires
        linked.wf(),
        0 <= index < linked.commands.len(),
    ensures
        linked.file_at(index).statics_base <= 240,
{
    if linked.files.len() > 0 {
        super::program::file_of_holds_command(linked, index, 0);
    }
}

} // verus!
