//! Linking and translating a program of the stack machine.
//!
//! The translation of a program is the start-up code followed by the code
//! of every command, in the order of the commands. A label named in a
//! `goto` or `if-goto` is looked for in the file of the command; a function
//! named in a `call` is looked for in the whole program. Execution starts
//! at the function `Sys.init` if the program declares it, and at the first
//! command if not. Nothing is translated unless every label and function
//! that is named is declared, none is declared twice, and the translation
//! fits the instruction memory.

use vstd::prelude::*;
use vstd::string::StringSliceAdditionalSpecFns;
use super::code::{
    binary, binary_length, binary_spec, boot, boot_length, boot_spec, call, call_length, call_spec,
    compare, compare_length, compare_spec, goto, goto_length, goto_spec, if_goto, if_goto_length,
    if_goto_spec, local, local_length, local_spec, pop_cell, pop_cell_length, pop_cell_spec,
    pop_indirect, pop_indirect_length, pop_indirect_spec, push_cell, push_cell_length,
    push_cell_spec, push_constant, push_constant_length, push_constant_spec, push_indirect,
    push_indirect_length, push_indirect_spec, ret, ret_length, ret_spec, unary, unary_length,
    unary_spec,
};
use super::command::{
    Arithmetic, Command, Segment, ARG, LARGEST, LCL, STATICS, STATIC_CELLS, TEMP, THAT, THIS,
};
use super::names::position_from;
use super::program::{File, Linked, Program};
use crate::hardware::alu::Operation;
use crate::hardware::instruction::{Instruction, Jump};

verus! {

/// Number of instructions of the start-up code.
pub const BOOT: usize = 6;

/// Why the files of a program do not link. `command` is the position of the
/// command at fault in the program.
#[derive(Clone, Copy, Debug, PartialEq, Eq, Structural)]
pub enum LinkError {
    /// The function that the command declares is declared before it.
    DuplicateFunction { command: usize },
    /// The function that the command calls is declared nowhere.
    UndeclaredFunction { command: usize },
    /// The label that the command declares is declared before it in the file.
    DuplicateLabel { command: usize },
    /// The label that the command jumps to is declared nowhere in the file.
    UndeclaredLabel { command: usize },
    /// The translation does not fit the instruction memory, with one cell
    /// left behind it.
    ProgramTooLong,
}

/// The number of instructions that `command` becomes.
pub open spec fn size_spec(command: Command) -> int {
    match command {
        Command::Push(segment, _) => if segment == Segment::Constant {
            7
        } else if segment.base_cell_spec() is Some {
            10
        } else {
            7
        },
        Command::Pop(segment, _) => if segment.base_cell_spec() is Some {
            12
        } else {
            5
        },
        Command::Arithmetic(operation) => match operation {
            Arithmetic::Neg => 3,
            Arithmetic::Not => 3,
            Arithmetic::Eq => 11,
            Arithmetic::Gt => 11,
            Arithmetic::Lt => 11,
            _ => 5,
        },
        Command::Label(_) => 0,
        Command::Goto(_) => 2,
        Command::IfGoto(_) => 5,
        Command::Function(_, locals) => 4 * locals,
        Command::Call(_, _) => 47,
        Command::Return => 42,
    }
}

/// The number of instructions that `command` becomes.
pub fn size(command: Command) -> (size: usize)
    ensures
        size == size_spec(command),
        size <= 4 * 65535,
{
    match command {
        Command::Push(segment, _) => if matches!(segment, Segment::Constant) {
            7
        } else if segment.base_cell().is_some() {
            10
        } else {
            7
        },
        Command::Pop(segment, _) => if segment.base_cell().is_some() {
            12
        } else {
            5
        },
        Command::Arithmetic(operation) => match operation {
            Arithmetic::Neg => 3,
            Arithmetic::Not => 3,
            Arithmetic::Eq => 11,
            Arithmetic::Gt => 11,
            Arithmetic::Lt => 11,
            _ => 5,
        },
        Command::Label(_) => 0,
        Command::Goto(_) => 2,
        Command::IfGoto(_) => 5,
        Command::Function(_, locals) => 4 * (locals as usize),
        Command::Call(_, _) => 47,
        Command::Return => 42,
    }
}

/// The address of the first instruction of command `index`: the start-up
/// code and the code of all commands before it lie in front.
pub open spec fn address_of(commands: Seq<Command>, index: int) -> int
    decreases index,
{
    if index <= 0 {
        BOOT as int
    } else {
        address_of(commands, index - 1) + size_spec(commands[index - 1])
    }
}

/// Addresses grow with the commands.
pub proof fn addresses_grow(commands: Seq<Command>, first: int, second: int)
    requires
        0 <= first <= second,
    ensures
        BOOT <= address_of(commands, first) <= address_of(commands, second),
    decreases second,
{
    if first < second {
        addresses_grow(commands, first, second - 1);
    } else if first > 0 {
        addresses_grow(commands, first - 1, first - 1);
    }
}

/// The position of the first command in `commands[from..to]` that declares
/// the label `name`.
pub open spec fn label_from(commands: Seq<Command>, name: usize, from: int, to: int) -> Option<int>
    decreases to - from,
{
    if from < 0 || from >= to || from >= commands.len() {
        None
    } else if commands[from] == Command::Label(name) {
        Some(from)
    } else {
        label_from(commands, name, from + 1, to)
    }
}

/// The position of the first command in `commands[from..to]` that declares
/// the function `name`.
pub open spec fn function_from(commands: Seq<Command>, name: usize, from: int, to: int) -> Option<int>
    decreases to - from,
{
    if from < 0 || from >= to || from >= commands.len() {
        None
    } else if commands[from] matches Command::Function(declared, _) && declared == name {
        Some(from)
    } else {
        function_from(commands, name, from + 1, to)
    }
}

fn find_label(commands: &Vec<Command>, name: usize, from: usize, to: usize) -> (found: Option<usize>)
    requires
        from <= to <= commands.len(),
    ensures
        found matches Some(at) ==> label_from(commands@, name, from as int, to as int) == Some(
            at as int,
        ) && from <= at < to,
        found.is_none() ==> label_from(commands@, name, from as int, to as int).is_none(),
{
    let mut at = from;
    while at < to
        invariant
            from <= at <= to <= commands.len(),
            label_from(commands@, name, from as int, to as int) == label_from(
                commands@,
                name,
                at as int,
                to as int,
            ),
        decreases to - at,
    {
        match commands[at] {
            Command::Label(declared) => {
                if declared == name {
                    return Some(at);
                }
            },
            _ => {},
        }
        at += 1;
    }
    None
}

fn find_function(commands: &Vec<Command>, name: usize, from: usize, to: usize) -> (found: Option<usize>)
    requires
        from <= to <= commands.len(),
    ensures
        found matches Some(at) ==> function_from(commands@, name, from as int, to as int) == Some(
            at as int,
        ) && from <= at < to,
        found.is_none() ==> function_from(commands@, name, from as int, to as int).is_none(),
{
    let mut at = from;
    while at < to
        invariant
            from <= at <= to <= commands.len(),
            function_from(commands@, name, from as int, to as int) == function_from(
                commands@,
                name,
                at as int,
                to as int,
            ),
        decreases to - at,
    {
        match commands[at] {
            Command::Function(declared, _) => {
                if declared == name {
                    return Some(at);
                }
            },
            _ => {},
        }
        at += 1;
    }
    None
}

impl Linked {
    /// The file of command `index`.
    pub open spec fn file_at(self, index: int) -> File {
        self.files[self.file_of(index)]
    }

    /// The position of the command that command `index` refers to: for a
    /// jump, the declaration of its label in the same file; for a call, the
    /// declaration of its function.
    pub open spec fn referent(self, index: int) -> Option<int> {
        match self.commands[index] {
            Command::Goto(name) => label_from(
                self.commands,
                name,
                self.file_at(index).starting_command_index as int,
                self.file_at(index).end(),
            ),
            Command::IfGoto(name) => label_from(
                self.commands,
                name,
                self.file_at(index).starting_command_index as int,
                self.file_at(index).end(),
            ),
            Command::Call(name, _) => function_from(self.commands, name, 0, self.commands.len() as int),
            _ => None,
        }
    }

    /// What is wrong with command `index`, if anything.
    pub open spec fn fault_at(self, index: int) -> Option<LinkError> {
        match self.commands[index] {
            Command::Label(name) => if label_from(
                self.commands,
                name,
                self.file_at(index).starting_command_index as int,
                index,
            ) is Some {
                Some(LinkError::DuplicateLabel { command: index as usize })
            } else {
                None
            },
            Command::Function(name, _) => if function_from(self.commands, name, 0, index) is Some {
                Some(LinkError::DuplicateFunction { command: index as usize })
            } else {
                None
            },
            Command::Goto(_) => if self.referent(index) is Some {
                None
            } else {
                Some(LinkError::UndeclaredLabel { command: index as usize })
            },
            Command::IfGoto(_) => if self.referent(index) is Some {
                None
            } else {
                Some(LinkError::UndeclaredLabel { command: index as usize })
            },
            Command::Call(_, _) => if self.referent(index) is Some {
                None
            } else {
                Some(LinkError::UndeclaredFunction { command: index as usize })
            },
            _ => None,
        }
    }

    /// What is wrong with the first command at or after `from` with which
    /// anything is.
    pub open spec fn first_fault(self, from: int) -> Option<LinkError>
        decreases self.commands.len() - from,
    {
        if from < 0 || from >= self.commands.len() {
            None
        } else if self.fault_at(from) is Some {
            self.fault_at(from)
        } else {
            self.first_fault(from + 1)
        }
    }

    /// The address at which execution starts: that of the function
    /// `Sys.init`, or that of the first command if the program has no such
    /// function.
    pub open spec fn entry(self) -> int {
        match position_from(self.names, "Sys.init".spec_bytes(), 0) {
            Some(name) => match function_from(
                self.commands,
                name as usize,
                0,
                self.commands.len() as int,
            ) {
                Some(at) => address_of(self.commands, at),
                None => BOOT as int,
            },
            None => BOOT as int,
        }
    }

    /// The memory cell that cell `index` of the pointer, temp or static
    /// `segment` is, for a command in `file`.
    pub open spec fn cell(file: File, segment: Segment, index: u16) -> u16 {
        match segment {
            Segment::Pointer => (THIS + index) as u16,
            Segment::Temp => (TEMP + index) as u16,
            _ => (STATICS + file.statics_base + index) as u16,
        }
    }

    /// The instructions that command `index` becomes.
    pub open spec fn code_of(self, index: int) -> Seq<Instruction> {
        let address = address_of(self.commands, index);
        let target = if self.referent(index) is Some {
            address_of(self.commands, self.referent(index).unwrap()) as u16
        } else {
            0
        };
        match self.commands[index] {
            Command::Push(segment, value) => if segment == Segment::Constant {
                push_constant_spec(value)
            } else if segment.base_cell_spec() is Some {
                push_indirect_spec(segment.base_cell_spec().unwrap(), value)
            } else {
                push_cell_spec(Linked::cell(self.file_at(index), segment, value))
            },
            Command::Pop(segment, value) => if segment.base_cell_spec() is Some {
                pop_indirect_spec(segment.base_cell_spec().unwrap(), value)
            } else {
                pop_cell_spec(Linked::cell(self.file_at(index), segment, value))
            },
            Command::Arithmetic(operation) => match operation {
                Arithmetic::Add => binary_spec(Operation::DPlusY),
                Arithmetic::Sub => binary_spec(Operation::YMinusD),
                Arithmetic::And => binary_spec(Operation::DAndY),
                Arithmetic::Or => binary_spec(Operation::DOrY),
                Arithmetic::Neg => unary_spec(Operation::NegY),
                Arithmetic::Not => unary_spec(Operation::NotY),
                Arithmetic::Eq => compare_spec(Jump::Equal, (address + 11) as u16),
                Arithmetic::Gt => compare_spec(Jump::Greater, (address + 11) as u16),
                Arithmetic::Lt => compare_spec(Jump::Less, (address + 11) as u16),
            },
            Command::Label(_) => Seq::empty(),
            Command::Goto(_) => goto_spec(target),
            Command::IfGoto(_) => if_goto_spec(target),
            Command::Function(_, locals) => repeat(local_spec(), locals as int),
            Command::Call(_, arguments) => call_spec(target, arguments, (address + 47) as u16),
            Command::Return => ret_spec(),
        }
    }

    /// The start-up code and the code of the first `count` commands.
    pub open spec fn code_upto(self, count: int) -> Seq<Instruction>
        decreases count,
    {
        if count <= 0 {
            boot_spec(self.entry() as u16)
        } else {
            self.code_upto(count - 1) + self.code_of(count - 1)
        }
    }

    /// For each instruction of the start-up code and of the first `count`
    /// commands, the command that it belongs to; the start-up code counts
    /// for the first command.
    pub open spec fn map_upto(self, count: int) -> Seq<usize>
        decreases count,
    {
        if count <= 0 {
            Seq::new(BOOT as nat, |i: int| 0usize)
        } else {
            self.map_upto(count - 1) + Seq::new(
                size_spec(self.commands[count - 1]) as nat,
                |i: int| (count - 1) as usize,
            )
        }
    }

    /// The translation of the program: its instructions and, for each of
    /// them, the command that it belongs to.
    pub open spec fn translate(self) -> Result<(Seq<Instruction>, Seq<usize>), LinkError> {
        if self.first_fault(0) is Some {
            Err(self.first_fault(0).unwrap())
        } else if address_of(self.commands, self.commands.len() as int) > LARGEST {
            Err(LinkError::ProgramTooLong)
        } else {
            Ok(
                (
                    self.code_upto(self.commands.len() as int),
                    self.map_upto(self.commands.len() as int),
                ),
            )
        }
    }
}

/// `block`, `count` times over.
pub open spec fn repeat(block: Seq<Instruction>, count: int) -> Seq<Instruction>
    decreases count,
{
    if count <= 0 {
        Seq::empty()
    } else {
        repeat(block, count - 1) + block
    }
}

/// The length of the code of a command is the size of the command.
pub proof fn code_has_size(linked: Linked, index: int)
    requires
        0 <= index < linked.commands.len(),
    ensures
        linked.code_of(index).len() == size_spec(linked.commands[index]),
{
    let target = if linked.referent(index) is Some {
        address_of(linked.commands, linked.referent(index).unwrap()) as u16
    } else {
        0
    };
    let next = (address_of(linked.commands, index) + size_spec(linked.commands[index])) as u16;
    match linked.commands[index] {
        Command::Push(segment, value) => {
            push_constant_length(value);
            push_indirect_length(LCL, value);
            push_indirect_length(ARG, value);
            push_indirect_length(THIS, value);
            push_indirect_length(THAT, value);
            push_cell_length(Linked::cell(linked.file_at(index), segment, value));
        },
        Command::Pop(segment, value) => {
            pop_indirect_length(LCL, value);
            pop_indirect_length(ARG, value);
            pop_indirect_length(THIS, value);
            pop_indirect_length(THAT, value);
            pop_cell_length(Linked::cell(linked.file_at(index), segment, value));
        },
        Command::Arithmetic(operation) => {
            binary_length(Operation::DPlusY);
            binary_length(Operation::YMinusD);
            binary_length(Operation::DAndY);
            binary_length(Operation::DOrY);
            unary_length(Operation::NegY);
            unary_length(Operation::NotY);
            compare_length(Jump::Equal, (address_of(linked.commands, index) + 11) as u16);
            compare_length(Jump::Greater, (address_of(linked.commands, index) + 11) as u16);
            compare_length(Jump::Less, (address_of(linked.commands, index) + 11) as u16);
        },
        Command::Label(_) => {},
        Command::Goto(_) => {
            goto_length(target);
        },
        Command::IfGoto(_) => {
            if_goto_length(target);
        },
        Command::Function(_, locals) => {
            local_length();
            repeat_has_length(local_spec(), locals as int);
        },
        Command::Call(_, arguments) => {
            call_length(target, arguments, (address_of(linked.commands, index) + 47) as u16);
        },
        Command::Return => {
            ret_length();
        },
    }
}

/// A block repeated is as long as the block times the number of repeats.
pub proof fn repeat_has_length(block: Seq<Instruction>, count: int)
    requires
        0 <= count,
    ensures
        repeat(block, count).len() == count * block.len(),
    decreases count,
{
    let length = block.len() as int;
    if count > 0 {
        repeat_has_length(block, count - 1);
        assert(count * length == (count - 1) * length + length) by (nonlinear_arith);
        assert(repeat(block, count).len() == repeat(block, count - 1).len() + length);
    } else {
        assert(count * length == 0) by (nonlinear_arith)
            requires
                count == 0,
        ;
    }
}

/// The code of the first `count` commands ends where the next command
/// starts, and the map has an entry for each of its instructions.
pub proof fn code_reaches_address(linked: Linked, count: int)
    requires
        0 <= count <= linked.commands.len(),
    ensures
        linked.code_upto(count).len() == address_of(linked.commands, count),
        linked.map_upto(count).len() == address_of(linked.commands, count),
    decreases count,
{
    if count > 0 {
        code_reaches_address(linked, count - 1);
        code_has_size(linked, count - 1);
    } else {
        boot_length(linked.entry() as u16);
    }
}

/// Every instruction of a command is mapped to that command.
pub proof fn map_names_the_command(linked: Linked, count: int, command: int, address: int)
    requires
        0 <= command < count <= linked.commands.len() <= usize::MAX,
        address_of(linked.commands, command) <= address < address_of(linked.commands, command + 1),
    ensures
        linked.map_upto(count)[address] == command,
    decreases count,
{
    code_reaches_address(linked, count - 1);
    let before = linked.map_upto(count - 1);
    let added = Seq::new(size_spec(linked.commands[count - 1]) as nat, |i: int| (count - 1) as usize);
    assert(linked.map_upto(count) == before + added);
    addresses_grow(linked.commands, 0, command);
    if command < count - 1 {
        addresses_grow(linked.commands, command + 1, count - 1);
        map_names_the_command(linked, count - 1, command, address);
        assert((before + added)[address] == before[address]);
    } else {
        assert((before + added)[address] == added[address - before.len()]);
    }
}

/// A program translated into instructions.
pub struct Translation {
    pub instructions: Vec<Instruction>,
    /// For each instruction, the position of the command that it belongs to.
    pub source_map: Vec<usize>,
}

/// The position of the command that command `index` refers to.
fn referent(program: &Program, index: usize) -> (found: Option<usize>)
    requires
        index < program@.commands.len(),
    ensures
        found matches Some(at) ==> program@.referent(index as int) == Some(at as int) && at
            < program@.commands.len(),
        found.is_none() ==> program@.referent(index as int).is_none(),
{
    let commands = program.all_commands();
    match commands[index] {
        Command::Goto(name) => {
            let file = program.files()[program.file_of(index)];
            assert(file.end() <= commands.len());
            find_label(
                commands,
                name,
                file.starting_command_index,
                file.starting_command_index + file.command_count,
            )
        },
        Command::IfGoto(name) => {
            let file = program.files()[program.file_of(index)];
            assert(file.end() <= commands.len());
            find_label(
                commands,
                name,
                file.starting_command_index,
                file.starting_command_index + file.command_count,
            )
        },
        Command::Call(name, _) => find_function(commands, name, 0, commands.len()),
        _ => None,
    }
}

/// What is wrong with command `index`, if anything.
fn fault(program: &Program, index: usize) -> (found: Option<LinkError>)
    requires
        index < program@.commands.len(),
    ensures
        found == program@.fault_at(index as int),
{
    let commands = program.all_commands();
    match commands[index] {
        Command::Label(name) => {
            let file = program.files()[program.file_of(index)];
            if find_label(commands, name, file.starting_command_index, index).is_some() {
                Some(LinkError::DuplicateLabel { command: index })
            } else {
                None
            }
        },
        Command::Function(name, _) => {
            if find_function(commands, name, 0, index).is_some() {
                Some(LinkError::DuplicateFunction { command: index })
            } else {
                None
            }
        },
        Command::Goto(_) => {
            if referent(program, index).is_some() {
                None
            } else {
                Some(LinkError::UndeclaredLabel { command: index })
            }
        },
        Command::IfGoto(_) => {
            if referent(program, index).is_some() {
                None
            } else {
                Some(LinkError::UndeclaredLabel { command: index })
            }
        },
        Command::Call(_, _) => {
            if referent(program, index).is_some() {
                None
            } else {
                Some(LinkError::UndeclaredFunction { command: index })
            }
        },
        _ => None,
    }
}

/// Whether `starts` holds the address of every command of `commands`, and
/// behind them the address at which the translation ends.
pub open spec fn starts_wf(commands: Seq<Command>, starts: Seq<u16>) -> bool {
    starts.len() == commands.len() + 1 && forall|k: int|
        0 <= k <= commands.len() ==> #[trigger] starts[k] == address_of(commands, k) && starts[k]
            <= LARGEST
}

/// The memory cell that cell `index` of the pointer, temp or static
/// `segment` is, for a command in `file`.
fn cell(file: File, segment: Segment, index: u16) -> (cell: u16)
    requires
        file.statics_base <= STATIC_CELLS,
        index <= LARGEST,
    ensures
        cell == Linked::cell(file, segment, index),
{
    match segment {
        Segment::Pointer => THIS + index,
        Segment::Temp => TEMP + index,
        _ => STATICS + file.statics_base + index,
    }
}

/// Puts the instructions of command `index` behind `out`.
fn emit(program: &Program, index: usize, starts: &Vec<u16>, out: &mut Vec<Instruction>)
    requires
        index < program@.commands.len(),
        program@.fault_at(index as int).is_none(),
        starts_wf(program@.commands, starts@),
    ensures
        final(out)@ == old(out)@ + program@.code_of(index as int),
{
    proof {
        use_type_invariant(program);
    }
    let commands = program.all_commands();
    let command = commands[index];
    assert(command.wf());
    let target: u16 = match referent(program, index) {
        Some(at) => starts[at],
        None => 0,
    };
    assert(index < commands.len());
    let next: u16 = starts[index + 1];
    assert(next == address_of(commands@, index as int) + size_spec(command));
    match command {
        Command::Push(segment, value) => {
            if matches!(segment, Segment::Constant) {
                push_constant(out, value);
            } else {
                match segment.base_cell() {
                    Some(base) => push_indirect(out, base, value),
                    None => {
                        let file = program.files()[program.file_of(index)];
                        push_cell(out, cell(file, segment, value));
                    },
                }
            }
        },
        Command::Pop(segment, value) => {
            match segment.base_cell() {
                Some(base) => pop_indirect(out, base, value),
                None => {
                    let file = program.files()[program.file_of(index)];
                    pop_cell(out, cell(file, segment, value));
                },
            }
        },
        Command::Arithmetic(operation) => {
            match operation {
                Arithmetic::Add => binary(out, Operation::DPlusY),
                Arithmetic::Sub => binary(out, Operation::YMinusD),
                Arithmetic::And => binary(out, Operation::DAndY),
                Arithmetic::Or => binary(out, Operation::DOrY),
                Arithmetic::Neg => unary(out, Operation::NegY),
                Arithmetic::Not => unary(out, Operation::NotY),
                Arithmetic::Eq => compare(out, Jump::Equal, next),
                Arithmetic::Gt => compare(out, Jump::Greater, next),
                Arithmetic::Lt => compare(out, Jump::Less, next),
            }
        },
        Command::Label(_) => {
            assert(out@ =~= old(out)@ + Seq::<Instruction>::empty());
        },
        Command::Goto(_) => goto(out, target),
        Command::IfGoto(_) => if_goto(out, target),
        Command::Function(_, locals) => {
            let mut made: u16 = 0;
            while made < locals
                invariant
                    made <= locals,
                    out@ == old(out)@ + repeat(local_spec(), made as int),
                decreases locals - made,
            {
                local(out);
                made += 1;
                assert(out@ =~= old(out)@ + repeat(local_spec(), made as int));
            }
        },
        Command::Call(_, arguments) => call(out, target, arguments, next),
        Command::Return => ret(out),
    }
}

/// Translates the program into instructions. A program with a command at
/// fault, or one that is too long, is not translated at all.
pub fn translate(program: &Program) -> (result: Result<Translation, LinkError>)
    ensures
        match program@.translate() {
            Ok((instructions, source_map)) => result is Ok && result->Ok_0.instructions@
                == instructions && result->Ok_0.source_map@ == source_map
                && instructions.len() == source_map.len() && instructions.len() <= LARGEST,
            Err(error) => result == Err::<Translation, LinkError>(error),
        },
{
    let commands = program.all_commands();
    let count = commands.len();
    let mut index: usize = 0;
    while index < count
        invariant
            commands@ == program@.commands,
            index <= count == commands.len(),
            program@.first_fault(0) == program@.first_fault(index as int),
            forall|k: int| 0 <= k < index ==> program@.fault_at(k).is_none(),
        decreases count - index,
    {
        match fault(program, index) {
            Some(error) => {
                return Err(error);
            },
            None => {},
        }
        index += 1;
    }
    assert(forall|k: int| 0 <= k < count ==> program@.fault_at(k).is_none());
    let mut starts: Vec<u16> = Vec::new();
    let mut address: usize = BOOT;
    index = 0;
    while index < count
        invariant
            commands@ == program@.commands,
            program@.first_fault(0).is_none(),
            index <= count == commands.len(),
            starts.len() == index,
            address == address_of(commands@, index as int),
            address <= LARGEST,
            forall|k: int| 0 <= k < count ==> program@.fault_at(k).is_none(),
            forall|k: int|
                0 <= k < index ==> #[trigger] starts@[k] == address_of(commands@, k) && starts@[k]
                    <= LARGEST,
        decreases count - index,
    {
        starts.push(address as u16);
        address = address + size(commands[index]);
        if address > LARGEST as usize {
            proof {
                addresses_grow(commands@, index + 1, count as int);
            }
            return Err(LinkError::ProgramTooLong);
        }
        index += 1;
    }
    starts.push(address as u16);
    let entry: u16 = match program.names().position("Sys.init".as_bytes()) {
        Some(name) => match find_function(commands, name, 0, count) {
            Some(at) => starts[at],
            None => BOOT as u16,
        },
        None => BOOT as u16,
    };
    let mut instructions: Vec<Instruction> = Vec::new();
    let mut source_map: Vec<usize> = Vec::new();
    boot(&mut instructions, entry);
    while source_map.len() < BOOT
        invariant
            source_map.len() <= BOOT,
            source_map@ == Seq::new(source_map.len() as nat, |i: int| 0usize),
        decreases BOOT - source_map.len(),
    {
        source_map.push(0);
        assert(source_map@ =~= Seq::new(source_map.len() as nat, |i: int| 0usize));
    }
    assert(instructions@ =~= program@.code_upto(0));
    index = 0;
    while index < count
        invariant
            commands@ == program@.commands,
            index <= count == commands.len(),
            starts_wf(commands@, starts@),
            forall|k: int| 0 <= k < count ==> program@.fault_at(k).is_none(),
            instructions@ == program@.code_upto(index as int),
            source_map@ == program@.map_upto(index as int),
        decreases count - index,
    {
        emit(program, index, &starts, &mut instructions);
        let ghost before = source_map@;
        let size = size(commands[index]);
        let mut mapped: usize = 0;
        while mapped < size
            invariant
                mapped <= size,
                source_map@ == before + Seq::new(mapped as nat, |i: int| index),
            decreases size - mapped,
        {
            source_map.push(index);
            mapped += 1;
            assert(source_map@ =~= before + Seq::new(mapped as nat, |i: int| index));
        }
        index += 1;
    }
    proof {
        code_reaches_address(program@, count as int);
    }
    Ok(Translation { instructions, source_map })
}

} // verus!
