//! The instructions that each command of the stack machine becomes.
//!
//! The stack grows upwards from cell 256; cell 0 holds the address of the
//! first free cell behind it. Cells 1 to 4 hold the base addresses of the
//! local, argument, `this` and `that` segments; the pointer segment is cells
//! 3 and 4, the temp segment cells 5 to 12, and the static segments lie from
//! cell 16 on. Cells 13 and 14 are scratch cells of the translated code.

use vstd::prelude::*;
use super::command::{ARG, LARGEST, LCL, SCRATCH, SCRATCH2, SP, STACK, THAT, THIS};
use crate::hardware::alu::Operation;
use crate::hardware::instruction::{Decoded, Destinations, Instruction, Jump};

verus! {

/// The destination code for no destination.
pub const NOWHERE: u8 = 0;

/// The destination code for the addressed memory cell.
pub const M: u8 = 1;

/// The destination code for the data register.
pub const D: u8 = 2;

/// The destination code for the memory cell and the data register.
pub const MD: u8 = 3;

/// The destination code for the address register.
pub const A: u8 = 4;

/// The destination code for the address register and the memory cell.
pub const AM: u8 = 5;

/// The destination code for the address and the data register.
pub const AD: u8 = 6;

/// The destination code for all three destinations.
pub const AMD: u8 = 7;

/// The second operand is the address register.
pub const REGISTER: bool = false;

/// The second operand is the addressed memory cell.
pub const MEMORY: bool = true;

/// The address instruction that loads `value`.
pub open spec fn at_spec(value: u16) -> Instruction {
    Instruction { raw: value }
}

/// The address instruction that loads `value`.
#[verifier::when_used_as_spec(at_spec)]
pub fn at(value: u16) -> (instruction: Instruction)
    ensures
        instruction == at_spec(value),
{
    Instruction { raw: value }
}

/// The compute instruction that stores `operation` in the destinations with
/// code `dest` and jumps on `jump`.
pub open spec fn op_spec(dest: u8, use_memory: bool, operation: Operation, jump: Jump) -> Instruction {
    Instruction {
        raw: (Decoded::Compute {
            spare: 3,
            use_memory,
            function: operation.code_spec(),
            dest: Destinations::from_code_spec(dest),
            jump,
        }).encode_spec(),
    }
}

/// The compute instruction that stores `operation` in the destinations with
/// code `dest` and jumps on `jump`.
#[verifier::when_used_as_spec(op_spec)]
pub fn op(dest: u8, use_memory: bool, operation: Operation, jump: Jump) -> (instruction: Instruction)
    ensures
        instruction == op_spec(dest, use_memory, operation, jump),
{
    Instruction {
        raw: (Decoded::Compute {
            spare: 3,
            use_memory,
            function: operation.code(),
            dest: Destinations::from_code(dest),
            jump,
        }).encode(),
    }
}

/// Puts the instructions `code` behind `out`.
pub fn append<const N: usize>(out: &mut Vec<Instruction>, code: [Instruction; N])
    ensures
        final(out)@ == old(out)@ + code@,
{
    let mut i: usize = 0;
    while i < N
        invariant
            i <= N,
            code@.len() == N,
            out@ == old(out)@ + code@.take(i as int),
        decreases N - i,
    {
        out.push(code[i]);
        i += 1;
        assert(out@ =~= old(out)@ + code@.take(i as int));
    }
    assert(code@.take(N as int) == code@);
}

/// Pushes the data register.
pub open spec fn push_d_spec() -> Seq<Instruction> {
    seq![
        at(SP),  // @SP
        op(A, MEMORY, Operation::Y, Jump::Never),  // A=M
        op(M, REGISTER, Operation::D, Jump::Never),  // M=D
        at(SP),  // @SP
        op(M, MEMORY, Operation::IncY, Jump::Never),  // M=M+1
    ]
}

/// Pushes the data register.
pub fn push_d(out: &mut Vec<Instruction>)
    ensures
        final(out)@ == old(out)@ + push_d_spec(),
        final(out).len() == old(out).len() + 5,
{
    append(
        out,
        [
            at(SP),  // @SP
            op(A, MEMORY, Operation::Y, Jump::Never),  // A=M
            op(M, REGISTER, Operation::D, Jump::Never),  // M=D
            at(SP),  // @SP
            op(M, MEMORY, Operation::IncY, Jump::Never),  // M=M+1
        ],
    );
    assert(out@ =~= old(out)@ + push_d_spec());
}

/// The code has 5 instructions.
pub proof fn push_d_length()
    ensures
        push_d_spec().len() == 5,
{
}

/// Pops the top of the stack into the data register, and leaves the
/// address register pointing at the cell that held it.
pub open spec fn pop_d_spec() -> Seq<Instruction> {
    seq![
        at(SP),  // @SP
        op(AM, MEMORY, Operation::DecY, Jump::Never),  // AM=M-1
        op(D, MEMORY, Operation::Y, Jump::Never),  // D=M
    ]
}

/// Pops the top of the stack into the data register, and leaves the
/// address register pointing at the cell that held it.
pub fn pop_d(out: &mut Vec<Instruction>)
    ensures
        final(out)@ == old(out)@ + pop_d_spec(),
        final(out).len() == old(out).len() + 3,
{
    append(
        out,
        [
            at(SP),  // @SP
            op(AM, MEMORY, Operation::DecY, Jump::Never),  // AM=M-1
            op(D, MEMORY, Operation::Y, Jump::Never),  // D=M
        ],
    );
    assert(out@ =~= old(out)@ + pop_d_spec());
}

/// The code has 3 instructions.
pub proof fn pop_d_length()
    ensures
        pop_d_spec().len() == 3,
{
}

/// Pushes the number `value`.
pub open spec fn push_constant_spec(value: u16) -> Seq<Instruction> {
    seq![
        at(value),  // @value
        op(D, REGISTER, Operation::Y, Jump::Never),  // D=A
    ] + push_d_spec()
}

/// Pushes the number `value`.
pub fn push_constant(out: &mut Vec<Instruction>, value: u16)
    ensures
        final(out)@ == old(out)@ + push_constant_spec(value),
        final(out).len() == old(out).len() + 7,
{
    append(
        out,
        [
            at(value),  // @value
            op(D, REGISTER, Operation::Y, Jump::Never),  // D=A
        ],
    );
    push_d(out);
    assert(out@ =~= old(out)@ + push_constant_spec(value));
}

/// The code has 7 instructions.
pub proof fn push_constant_length(value: u16)
    ensures
        push_constant_spec(value).len() == 7,
{
    push_d_length();
}

/// Pushes cell `index` of the segment whose base address cell `base` holds.
pub open spec fn push_indirect_spec(base: u16, index: u16) -> Seq<Instruction> {
    seq![
        at(index),  // @index
        op(D, REGISTER, Operation::Y, Jump::Never),  // D=A
        at(base),  // @base
        op(A, MEMORY, Operation::DPlusY, Jump::Never),  // A=D+M
        op(D, MEMORY, Operation::Y, Jump::Never),  // D=M
    ] + push_d_spec()
}

/// Pushes cell `index` of the segment whose base address cell `base` holds.
pub fn push_indirect(out: &mut Vec<Instruction>, base: u16, index: u16)
    ensures
        final(out)@ == old(out)@ + push_indirect_spec(base, index),
        final(out).len() == old(out).len() + 10,
{
    append(
        out,
        [
            at(index),  // @index
            op(D, REGISTER, Operation::Y, Jump::Never),  // D=A
            at(base),  // @base
            op(A, MEMORY, Operation::DPlusY, Jump::Never),  // A=D+M
            op(D, MEMORY, Operation::Y, Jump::Never),  // D=M
        ],
    );
    push_d(out);
    assert(out@ =~= old(out)@ + push_indirect_spec(base, index));
}

/// The code has 10 instructions.
pub proof fn push_indirect_length(base: u16, index: u16)
    ensures
        push_indirect_spec(base, index).len() == 10,
{
    push_d_length();
}

/// Pushes the memory cell `cell`.
pub open spec fn push_cell_spec(cell: u16) -> Seq<Instruction> {
    seq![
        at(cell),  // @cell
        op(D, MEMORY, Operation::Y, Jump::Never),  // D=M
    ] + push_d_spec()
}

/// Pushes the memory cell `cell`.
pub fn push_cell(out: &mut Vec<Instruction>, cell: u16)
    ensures
        final(out)@ == old(out)@ + push_cell_spec(cell),
        final(out).len() == old(out).len() + 7,
{
    append(
        out,
        [
            at(cell),  // @cell
            op(D, MEMORY, Operation::Y, Jump::Never),  // D=M
        ],
    );
    push_d(out);
    assert(out@ =~= old(out)@ + push_cell_spec(cell));
}

/// The code has 7 instructions.
pub proof fn push_cell_length(cell: u16)
    ensures
        push_cell_spec(cell).len() == 7,
{
    push_d_length();
}

/// Pops into cell `index` of the segment whose base address cell `base` holds.
pub open spec fn pop_indirect_spec(base: u16, index: u16) -> Seq<Instruction> {
    seq![
        at(index),  // @index
        op(D, REGISTER, Operation::Y, Jump::Never),  // D=A
        at(base),  // @base
        op(D, MEMORY, Operation::DPlusY, Jump::Never),  // D=D+M
        at(SCRATCH),  // @SCRATCH
        op(M, REGISTER, Operation::D, Jump::Never),  // M=D
    ] + pop_d_spec() + seq![
        at(SCRATCH),  // @SCRATCH
        op(A, MEMORY, Operation::Y, Jump::Never),  // A=M
        op(M, REGISTER, Operation::D, Jump::Never),  // M=D
    ]
}

/// Pops into cell `index` of the segment whose base address cell `base` holds.
pub fn pop_indirect(out: &mut Vec<Instruction>, base: u16, index: u16)
    ensures
        final(out)@ == old(out)@ + pop_indirect_spec(base, index),
        final(out).len() == old(out).len() + 12,
{
    append(
        out,
        [
            at(index),  // @index
            op(D, REGISTER, Operation::Y, Jump::Never),  // D=A
            at(base),  // @base
            op(D, MEMORY, Operation::DPlusY, Jump::Never),  // D=D+M
            at(SCRATCH),  // @SCRATCH
            op(M, REGISTER, Operation::D, Jump::Never),  // M=D
        ],
    );
    pop_d(out);
    append(
        out,
        [
            at(SCRATCH),  // @SCRATCH
            op(A, MEMORY, Operation::Y, Jump::Never),  // A=M
            op(M, REGISTER, Operation::D, Jump::Never),  // M=D
        ],
    );
    assert(out@ =~= old(out)@ + pop_indirect_spec(base, index));
}

/// The code has 12 instructions.
pub proof fn pop_indirect_length(base: u16, index: u16)
    ensures
        pop_indirect_spec(base, index).len() == 12,
{
    pop_d_length();
}

/// Pops into the memory cell `cell`.
pub open spec fn pop_cell_spec(cell: u16) -> Seq<Instruction> {
    pop_d_spec() + seq![
        at(cell),  // @cell
        op(M, REGISTER, Operation::D, Jump::Never),  // M=D
    ]
}

/// Pops into the memory cell `cell`.
pub fn pop_cell(out: &mut Vec<Instruction>, cell: u16)
    ensures
        final(out)@ == old(out)@ + pop_cell_spec(cell),
        final(out).len() == old(out).len() + 5,
{
    pop_d(out);
    append(
        out,
        [
            at(cell),  // @cell
            op(M, REGISTER, Operation::D, Jump::Never),  // M=D
        ],
    );
    assert(out@ =~= old(out)@ + pop_cell_spec(cell));
}

/// The code has 5 instructions.
pub proof fn pop_cell_length(cell: u16)
    ensures
        pop_cell_spec(cell).len() == 5,
{
    pop_d_length();
}

/// Replaces the two topmost values by the result of `operation` on the
/// upper one (in the data register) and the lower one (in memory).
pub open spec fn binary_spec(operation: Operation) -> Seq<Instruction> {
    pop_d_spec() + seq![
        op(A, REGISTER, Operation::DecY, Jump::Never),  // A=A-1
        op(M, MEMORY, operation, Jump::Never),
    ]
}

/// Replaces the two topmost values by the result of `operation` on the
/// upper one (in the data register) and the lower one (in memory).
pub fn binary(out: &mut Vec<Instruction>, operation: Operation)
    ensures
        final(out)@ == old(out)@ + binary_spec(operation),
        final(out).len() == old(out).len() + 5,
{
    pop_d(out);
    append(
        out,
        [
            op(A, REGISTER, Operation::DecY, Jump::Never),  // A=A-1
            op(M, MEMORY, operation, Jump::Never),
        ],
    );
    assert(out@ =~= old(out)@ + binary_spec(operation));
}

/// The code has 5 instructions.
pub proof fn binary_length(operation: Operation)
    ensures
        binary_spec(operation).len() == 5,
{
    pop_d_length();
}

/// Replaces the topmost value by the result of `operation` on it.
pub open spec fn unary_spec(operation: Operation) -> Seq<Instruction> {
    seq![
        at(SP),  // @SP
        op(A, MEMORY, Operation::DecY, Jump::Never),  // A=M-1
        op(M, MEMORY, operation, Jump::Never),
    ]
}

/// Replaces the topmost value by the result of `operation` on it.
pub fn unary(out: &mut Vec<Instruction>, operation: Operation)
    ensures
        final(out)@ == old(out)@ + unary_spec(operation),
        final(out).len() == old(out).len() + 3,
{
    append(
        out,
        [
            at(SP),  // @SP
            op(A, MEMORY, Operation::DecY, Jump::Never),  // A=M-1
            op(M, MEMORY, operation, Jump::Never),
        ],
    );
    assert(out@ =~= old(out)@ + unary_spec(operation));
}

/// The code has 3 instructions.
pub proof fn unary_length(operation: Operation)
    ensures
        unary_spec(operation).len() == 3,
{
}

/// Replaces the two topmost values by -1 if the lower one minus the upper
/// one meets `jump`, and by 0 if not; `end` is the address behind this code.
pub open spec fn compare_spec(jump: Jump, end: u16) -> Seq<Instruction> {
    pop_d_spec() + seq![
        op(A, REGISTER, Operation::DecY, Jump::Never),  // A=A-1
        op(D, MEMORY, Operation::YMinusD, Jump::Never),  // D=M-D
        op(M, REGISTER, Operation::MinusOne, Jump::Never),  // M=-1
        at(end),  // @end
        op(NOWHERE, REGISTER, Operation::D, jump),
        at(SP),  // @SP
        op(A, MEMORY, Operation::DecY, Jump::Never),  // A=M-1
        op(M, REGISTER, Operation::Zero, Jump::Never),  // M=0
    ]
}

/// Replaces the two topmost values by -1 if the lower one minus the upper
/// one meets `jump`, and by 0 if not; `end` is the address behind this code.
pub fn compare(out: &mut Vec<Instruction>, jump: Jump, end: u16)
    ensures
        final(out)@ == old(out)@ + compare_spec(jump, end),
        final(out).len() == old(out).len() + 11,
{
    pop_d(out);
    append(
        out,
        [
            op(A, REGISTER, Operation::DecY, Jump::Never),  // A=A-1
            op(D, MEMORY, Operation::YMinusD, Jump::Never),  // D=M-D
            op(M, REGISTER, Operation::MinusOne, Jump::Never),  // M=-1
            at(end),  // @end
            op(NOWHERE, REGISTER, Operation::D, jump),
            at(SP),  // @SP
            op(A, MEMORY, Operation::DecY, Jump::Never),  // A=M-1
            op(M, REGISTER, Operation::Zero, Jump::Never),  // M=0
        ],
    );
    assert(out@ =~= old(out)@ + compare_spec(jump, end));
}

/// The code has 11 instructions.
pub proof fn compare_length(jump: Jump, end: u16)
    ensures
        compare_spec(jump, end).len() == 11,
{
    pop_d_length();
}

/// Continues at address `target`.
pub open spec fn goto_spec(target: u16) -> Seq<Instruction> {
    seq![
        at(target),  // @target
        op(NOWHERE, REGISTER, Operation::Zero, Jump::Always),  // 0;JMP
    ]
}

/// Continues at address `target`.
pub fn goto(out: &mut Vec<Instruction>, target: u16)
    ensures
        final(out)@ == old(out)@ + goto_spec(target),
        final(out).len() == old(out).len() + 2,
{
    append(
        out,
        [
            at(target),  // @target
            op(NOWHERE, REGISTER, Operation::Zero, Jump::Always),  // 0;JMP
        ],
    );
    assert(out@ =~= old(out)@ + goto_spec(target));
}

/// The code has 2 instructions.
pub proof fn goto_length(target: u16)
    ensures
        goto_spec(target).len() == 2,
{
}

/// Pops the topmost value and continues at address `target` if it is not zero.
pub open spec fn if_goto_spec(target: u16) -> Seq<Instruction> {
    pop_d_spec() + seq![
        at(target),  // @target
        op(NOWHERE, REGISTER, Operation::D, Jump::NotEqual),  // D;JNE
    ]
}

/// Pops the topmost value and continues at address `target` if it is not zero.
pub fn if_goto(out: &mut Vec<Instruction>, target: u16)
    ensures
        final(out)@ == old(out)@ + if_goto_spec(target),
        final(out).len() == old(out).len() + 5,
{
    pop_d(out);
    append(
        out,
        [
            at(target),  // @target
            op(NOWHERE, REGISTER, Operation::D, Jump::NotEqual),  // D;JNE
        ],
    );
    assert(out@ =~= old(out)@ + if_goto_spec(target));
}

/// The code has 5 instructions.
pub proof fn if_goto_length(target: u16)
    ensures
        if_goto_spec(target).len() == 5,
{
    pop_d_length();
}

/// Pushes a zero: one local variable of a function.
pub open spec fn local_spec() -> Seq<Instruction> {
    seq![
        at(SP),  // @SP
        op(AM, MEMORY, Operation::IncY, Jump::Never),  // AM=M+1
        op(A, REGISTER, Operation::DecY, Jump::Never),  // A=A-1
        op(M, REGISTER, Operation::Zero, Jump::Never),  // M=0
    ]
}

/// Pushes a zero: one local variable of a function.
pub fn local(out: &mut Vec<Instruction>)
    ensures
        final(out)@ == old(out)@ + local_spec(),
        final(out).len() == old(out).len() + 4,
{
    append(
        out,
        [
            at(SP),  // @SP
            op(AM, MEMORY, Operation::IncY, Jump::Never),  // AM=M+1
            op(A, REGISTER, Operation::DecY, Jump::Never),  // A=A-1
            op(M, REGISTER, Operation::Zero, Jump::Never),  // M=0
        ],
    );
    assert(out@ =~= old(out)@ + local_spec());
}

/// The code has 4 instructions.
pub proof fn local_length()
    ensures
        local_spec().len() == 4,
{
}

/// Calls the function at address `target`, for which `arguments` values
/// have been pushed: saves the return address `back` and the caller's
/// segments on the stack, and sets up the callee's argument and local segments.
pub open spec fn call_spec(target: u16, arguments: u16, back: u16) -> Seq<Instruction> {
    seq![
        at(back),  // @back
        op(D, REGISTER, Operation::Y, Jump::Never),  // D=A
    ] + push_d_spec() + seq![
        at(LCL),  // @LCL
        op(D, MEMORY, Operation::Y, Jump::Never),  // D=M
    ] + push_d_spec() + seq![
        at(ARG),  // @ARG
        op(D, MEMORY, Operation::Y, Jump::Never),  // D=M
    ] + push_d_spec() + seq![
        at(THIS),  // @THIS
        op(D, MEMORY, Operation::Y, Jump::Never),  // D=M
    ] + push_d_spec() + seq![
        at(THAT),  // @THAT
        op(D, MEMORY, Operation::Y, Jump::Never),  // D=M
    ] + push_d_spec() + seq![
        at(SP),  // @SP
        op(D, MEMORY, Operation::Y, Jump::Never),  // D=M
        at((arguments + 5) as u16),  // @(arguments + 5) as u16
        op(D, REGISTER, Operation::DMinusY, Jump::Never),  // D=D-A
        at(ARG),  // @ARG
        op(M, REGISTER, Operation::D, Jump::Never),  // M=D
        at(SP),  // @SP
        op(D, MEMORY, Operation::Y, Jump::Never),  // D=M
        at(LCL),  // @LCL
        op(M, REGISTER, Operation::D, Jump::Never),  // M=D
        at(target),  // @target
        op(NOWHERE, REGISTER, Operation::Zero, Jump::Always),  // 0;JMP
    ]
}

/// Calls the function at address `target`, for which `arguments` values
/// have been pushed: saves the return address `back` and the caller's
/// segments on the stack, and sets up the callee's argument and local segments.
pub fn call(out: &mut Vec<Instruction>, target: u16, arguments: u16, back: u16)
    requires
        arguments <= LARGEST - 5,
    ensures
        final(out)@ == old(out)@ + call_spec(target, arguments, back),
        final(out).len() == old(out).len() + 47,
{
    append(
        out,
        [
            at(back),  // @back
            op(D, REGISTER, Operation::Y, Jump::Never),  // D=A
        ],
    );
    push_d(out);
    append(
        out,
        [
            at(LCL),  // @LCL
            op(D, MEMORY, Operation::Y, Jump::Never),  // D=M
        ],
    );
    push_d(out);
    append(
        out,
        [
            at(ARG),  // @ARG
            op(D, MEMORY, Operation::Y, Jump::Never),  // D=M
        ],
    );
    push_d(out);
    append(
        out,
        [
            at(THIS),  // @THIS
            op(D, MEMORY, Operation::Y, Jump::Never),  // D=M
        ],
    );
    push_d(out);
    append(
        out,
        [
            at(THAT),  // @THAT
            op(D, MEMORY, Operation::Y, Jump::Never),  // D=M
        ],
    );
    push_d(out);
    append(
        out,
        [
            at(SP),  // @SP
            op(D, MEMORY, Operation::Y, Jump::Never),  // D=M
            at((arguments + 5) as u16),  // @(arguments + 5) as u16
            op(D, REGISTER, Operation::DMinusY, Jump::Never),  // D=D-A
            at(ARG),  // @ARG
            op(M, REGISTER, Operation::D, Jump::Never),  // M=D
            at(SP),  // @SP
            op(D, MEMORY, Operation::Y, Jump::Never),  // D=M
            at(LCL),  // @LCL
            op(M, REGISTER, Operation::D, Jump::Never),  // M=D
            at(target),  // @target
            op(NOWHERE, REGISTER, Operation::Zero, Jump::Always),  // 0;JMP
        ],
    );
    assert(out@ =~= old(out)@ + call_spec(target, arguments, back));
}

/// The code has 47 instructions.
pub proof fn call_length(target: u16, arguments: u16, back: u16)
    ensures
        call_spec(target, arguments, back).len() == 47,
{
    push_d_length();
    push_d_length();
    push_d_length();
    push_d_length();
    push_d_length();
}

/// Takes the next saved value down from the frame into cell `cell`.
pub open spec fn restore_spec(cell: u16) -> Seq<Instruction> {
    seq![
        at(SCRATCH),  // @SCRATCH
        op(AM, MEMORY, Operation::DecY, Jump::Never),  // AM=M-1
        op(D, MEMORY, Operation::Y, Jump::Never),  // D=M
        at(cell),  // @cell
        op(M, REGISTER, Operation::D, Jump::Never),  // M=D
    ]
}

/// Takes the next saved value down from the frame into cell `cell`.
pub fn restore(out: &mut Vec<Instruction>, cell: u16)
    ensures
        final(out)@ == old(out)@ + restore_spec(cell),
        final(out).len() == old(out).len() + 5,
{
    append(
        out,
        [
            at(SCRATCH),  // @SCRATCH
            op(AM, MEMORY, Operation::DecY, Jump::Never),  // AM=M-1
            op(D, MEMORY, Operation::Y, Jump::Never),  // D=M
            at(cell),  // @cell
            op(M, REGISTER, Operation::D, Jump::Never),  // M=D
        ],
    );
    assert(out@ =~= old(out)@ + restore_spec(cell));
}

/// The code has 5 instructions.
pub proof fn restore_length(cell: u16)
    ensures
        restore_spec(cell).len() == 5,
{
}

/// Returns from a function: puts the topmost value where the caller's
/// first argument was, makes the stack end behind it, restores the caller's
/// segments and continues at the return address.
pub open spec fn ret_spec() -> Seq<Instruction> {
    seq![
        at(LCL),  // @LCL
        op(D, MEMORY, Operation::Y, Jump::Never),  // D=M
        at(SCRATCH),  // @SCRATCH
        op(M, REGISTER, Operation::D, Jump::Never),  // M=D
        at(5),  // @5
        op(A, REGISTER, Operation::DMinusY, Jump::Never),  // A=D-A
        op(D, MEMORY, Operation::Y, Jump::Never),  // D=M
        at(SCRATCH2),  // @SCRATCH2
        op(M, REGISTER, Operation::D, Jump::Never),  // M=D
    ] + pop_d_spec() + seq![
        at(ARG),  // @ARG
        op(A, MEMORY, Operation::Y, Jump::Never),  // A=M
        op(M, REGISTER, Operation::D, Jump::Never),  // M=D
        at(ARG),  // @ARG
        op(D, MEMORY, Operation::IncY, Jump::Never),  // D=M+1
        at(SP),  // @SP
        op(M, REGISTER, Operation::D, Jump::Never),  // M=D
    ] + restore_spec(THAT) + restore_spec(THIS) + restore_spec(ARG) + restore_spec(LCL) + seq![
        at(SCRATCH2),  // @SCRATCH2
        op(A, MEMORY, Operation::Y, Jump::Never),  // A=M
        op(NOWHERE, REGISTER, Operation::Zero, Jump::Always),  // 0;JMP
    ]
}

/// Returns from a function: puts the topmost value where the caller's
/// first argument was, makes the stack end behind it, restores the caller's
/// segments and continues at the return address.
pub fn ret(out: &mut Vec<Instruction>)
    ensures
        final(out)@ == old(out)@ + ret_spec(),
        final(out).len() == old(out).len() + 42,
{
    append(
        out,
        [
            at(LCL),  // @LCL
            op(D, MEMORY, Operation::Y, Jump::Never),  // D=M
            at(SCRATCH),  // @SCRATCH
            op(M, REGISTER, Operation::D, Jump::Never),  // M=D
            at(5),  // @5
            op(A, REGISTER, Operation::DMinusY, Jump::Never),  // A=D-A
            op(D, MEMORY, Operation::Y, Jump::Never),  // D=M
            at(SCRATCH2),  // @SCRATCH2
            op(M, REGISTER, Operation::D, Jump::Never),  // M=D
        ],
    );
    pop_d(out);
    append(
        out,
        [
            at(ARG),  // @ARG
            op(A, MEMORY, Operation::Y, Jump::Never),  // A=M
            op(M, REGISTER, Operation::D, Jump::Never),  // M=D
            at(ARG),  // @ARG
            op(D, MEMORY, Operation::IncY, Jump::Never),  // D=M+1
            at(SP),  // @SP
            op(M, REGISTER, Operation::D, Jump::Never),  // M=D
        ],
    );
    restore(out, THAT);
    restore(out, THIS);
    restore(out, ARG);
    restore(out, LCL);
    append(
        out,
        [
            at(SCRATCH2),  // @SCRATCH2
            op(A, MEMORY, Operation::Y, Jump::Never),  // A=M
            op(NOWHERE, REGISTER, Operation::Zero, Jump::Always),  // 0;JMP
        ],
    );
    assert(out@ =~= old(out)@ + ret_spec());
}

/// The code has 42 instructions.
pub proof fn ret_length()
    ensures
        ret_spec().len() == 42,
{
    pop_d_length();
    restore_length(THAT);
    restore_length(THIS);
    restore_length(ARG);
    restore_length(LCL);
}

/// The start-up code: makes the stack start at its place and continues at
/// address `entry`.
pub open spec fn boot_spec(entry: u16) -> Seq<Instruction> {
    seq![
        at(STACK),  // @STACK
        op(D, REGISTER, Operation::Y, Jump::Never),  // D=A
        at(SP),  // @SP
        op(M, REGISTER, Operation::D, Jump::Never),  // M=D
        at(entry),  // @entry
        op(NOWHERE, REGISTER, Operation::Zero, Jump::Always),  // 0;JMP
    ]
}

/// The start-up code: makes the stack start at its place and continues at
/// address `entry`.
pub fn boot(out: &mut Vec<Instruction>, entry: u16)
    ensures
        final(out)@ == old(out)@ + boot_spec(entry),
        final(out).len() == old(out).len() + 6,
{
    append(
        out,
        [
            at(STACK),  // @STACK
            op(D, REGISTER, Operation::Y, Jump::Never),  // D=A
            at(SP),  // @SP
            op(M, REGISTER, Operation::D, Jump::Never),  // M=D
            at(entry),  // @entry
            op(NOWHERE, REGISTER, Operation::Zero, Jump::Always),  // 0;JMP
        ],
    );
    assert(out@ =~= old(out)@ + boot_spec(entry));
}

/// The code has 6 instructions.
pub proof fn boot_length(entry: u16)
    ensures
        boot_spec(entry).len() == 6,
{
}

} // verus!
