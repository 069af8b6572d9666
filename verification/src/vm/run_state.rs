//! Where a running program is, in terms of its source.

use vstd::prelude::*;
use super::program::{Linked, Program};
use super::translator::{address_of, addresses_grow, map_names_the_command};
use crate::hardware::instruction::Word;

verus! {

/// The command that is being executed: its position in the program, and the
/// position of its file among the files.
#[derive(Clone, Copy, Debug, PartialEq, Eq, Structural)]
pub struct RunState {
    pub current_file_index: usize,
    pub current_command_index: usize,
}

/// The command that the instruction at address `pc` belongs to, by the
/// source map `source_map`; none if the address lies outside the map, or the
/// map names no command there.
pub open spec fn locate_spec(linked: Linked, source_map: Seq<usize>, pc: Word) -> Option<RunState> {
    if 0 <= pc < source_map.len() && source_map[pc as int] < linked.commands.len() {
        Some(
            RunState {
                current_file_index: linked.file_of(source_map[pc as int] as int) as usize,
                current_command_index: source_map[pc as int],
            },
        )
    } else {
        None
    }
}

/// While the machine runs the code of a command of a translated program,
/// that command is the one being executed.
pub proof fn command_is_located(linked: Linked, command: int, pc: Word)
    requires
        linked.translate() is Ok,
        0 <= command < linked.commands.len() <= usize::MAX,
        address_of(linked.commands, command) <= pc < address_of(linked.commands, command + 1),
    ensures
        locate_spec(linked, linked.translate().unwrap().1, pc) == Some(
            RunState {
                current_file_index: linked.file_of(command) as usize,
                current_command_index: command as usize,
            },
        ),
{
    let count = linked.commands.len() as int;
    map_names_the_command(linked, count, command, pc as int);
    super::translator::code_reaches_address(linked, count);
    addresses_grow(linked.commands, 0, command);
    addresses_grow(linked.commands, command + 1, count);
}

/// The command that the instruction at address `pc` belongs to.
pub fn locate(program: &Program, source_map: &Vec<usize>, pc: Word) -> (state: Option<RunState>)
    ensures
        state == locate_spec(program@, source_map@, pc),
        state matches Some(found) ==> found.current_command_index < program@.commands.len()
            && found.current_file_index < program@.files.len() && program@.files[found.current_file_index as int].starting_command_index
            <= found.current_command_index < program@.files[found.current_file_index as int].end(),
{
    if pc < 0 || pc as usize >= source_map.len() {
        return None;
    }
    let command = source_map[pc as usize];
    if command >= program.all_commands().len() {
        return None;
    }
    Some(RunState { current_file_index: program.file_of(command), current_command_index: command })
}

} // verus!
