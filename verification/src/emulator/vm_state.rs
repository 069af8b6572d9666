//! A debugging session on a program of the stack machine.

use vstd::prelude::*;
use vstd::utf8::encode_utf8;
use super::common_state::{
    breakpoints_after, reduce_breakpoint, selected_after, BreakpointAction, CommonState,
};
use crate::error::LoadError;
use crate::hardware::breakpoint::{Breakpoint, BreakpointVar};
use crate::hardware::cpu::{fresh, Hardware, Machine};
use crate::hardware::ram::RAM;
use crate::vm::program::{Linked, Program};
use crate::vm::run_state::{locate, locate_spec, RunState};
use crate::vm::translator::{translate, LinkError};

verus! {

/// Why a set of files makes no program.
#[derive(Clone, Copy, Debug, PartialEq, Eq, Structural)]
pub enum VmError {
    /// The file at position `file` could not be added.
    Load { file: usize, error: LoadError },
    /// The files were read, but do not link.
    Link(LinkError),
}

/// The name and the text of a file, as bytes.
pub open spec fn file_bytes(file: (String, String)) -> (Seq<u8>, Seq<u8>) {
    (encode_utf8(file.0@), encode_utf8(file.1@))
}

/// The program made of the first `count` of `files`, added in their order,
/// or the failure of the first file that could not be added.
pub open spec fn link_upto(files: Seq<(String, String)>, count: int) -> Result<Linked, VmError>
    decreases count,
{
    if count <= 0 {
        Ok(Linked::empty())
    } else {
        match link_upto(files, count - 1) {
            Err(error) => Err(error),
            Ok(linked) => match linked.add_file(
                file_bytes(files[count - 1]).0,
                file_bytes(files[count - 1]).1,
            ) {
                Ok(linked) => Ok(linked),
                Err(error) => Err(VmError::Load { file: (count - 1) as usize, error }),
            },
        }
    }
}

/// Once a file could not be added, the files up to any later one fail as
/// the files up to that one do.
proof fn link_fails_for_good(files: Seq<(String, String)>, count: int, total: int)
    requires
        0 <= count <= total,
        link_upto(files, count) is Err,
    ensures
        link_upto(files, total) == link_upto(files, count),
    decreases total - count,
{
    if count < total {
        link_fails_for_good(files, count, total - 1);
    }
}

/// The program made of `files` and its translation, or why there is none.
pub open spec fn load_spec(files: Seq<(String, String)>) -> Result<
    (Linked, Seq<crate::hardware::instruction::Instruction>, Seq<usize>),
    VmError,
> {
    match link_upto(files, files.len() as int) {
        Err(error) => Err(error),
        Ok(linked) => match linked.translate() {
            Err(error) => Err(VmError::Link(error)),
            Ok((instructions, source_map)) => Ok((linked, instructions, source_map)),
        },
    }
}

/// A debugging session on a program of the stack machine.
pub struct VmState {
    /// The breakpoint that the front end is editing.
    pub selected_breakpoint: Breakpoint,
    /// The machine that runs the translated program.
    pub hardware: Hardware,
    /// The program.
    pub program: Program,
    /// For each instruction of the translation, the position of the command
    /// that it belongs to.
    pub source_map: Vec<usize>,
}

impl VmState {
    /// A session on the program made of `files`, each a name and a text, in
    /// their order. The machine holds the translation and is in its initial
    /// state; no breakpoint is set. Files that do not make a program give no
    /// session.
    pub fn from_files(files: &Vec<(String, String)>) -> (result: Result<VmState, VmError>)
        ensures
            match load_spec(files@) {
                Ok((linked, instructions, source_map)) => result is Ok && result->Ok_0.program@
                    == linked && result->Ok_0.source_map@ == source_map && result->Ok_0.hardware@
                    == fresh(instructions) && result->Ok_0.hardware.breakpoints@ == Seq::<
                    Breakpoint,
                >::empty() && result->Ok_0.selected_breakpoint == (Breakpoint {
                    var: BreakpointVar::A,
                    value: 0,
                }),
                Err(error) => result == Err::<VmState, VmError>(error),
            },
    {
        let mut program = Program::new();
        let mut index: usize = 0;
        while index < files.len()
            invariant
                index <= files.len(),
                link_upto(files@, index as int) == Ok::<Linked, VmError>(program@),
            decreases files.len() - index,
        {
            match program.add_file(files[index].0.as_str(), files[index].1.as_str()) {
                Ok(()) => {},
                Err(error) => {
                    proof {
                        link_fails_for_good(files@, index + 1, files.len() as int);
                    }
                    return Err(VmError::Load { file: index, error });
                },
            }
            index += 1;
        }
        let translation = match translate(&program) {
            Ok(translation) => translation,
            Err(error) => {
                return Err(VmError::Link(error));
            },
        };
        match Hardware::with_program(translation.instructions) {
            Ok(hardware) => Ok(
                VmState {
                    selected_breakpoint: Breakpoint { var: BreakpointVar::A, value: 0 },
                    hardware,
                    program,
                    source_map: translation.source_map,
                },
            ),
            Err(_) => Err(VmError::Link(LinkError::ProgramTooLong)),
        }
    }

    /// Carries out a request about the breakpoints, by
    /// [`reduce_breakpoint`](super::common_state::reduce_breakpoint).
    pub fn reduce_breakpoint(&mut self, action: &BreakpointAction)
        ensures
            final(self).hardware@ == old(self).hardware@,
            final(self).program == old(self).program,
            final(self).source_map == old(self).source_map,
            final(self).selected_breakpoint == selected_after(old(self).selected_breakpoint, *action),
            final(self).hardware.breakpoints@ == breakpoints_after(
                old(self).hardware.breakpoints@,
                old(self).selected_breakpoint,
                *action,
            ),
    {
        reduce_breakpoint(&mut self.selected_breakpoint, &mut self.hardware, action);
    }

    /// The command that is being executed, while the program counter lies
    /// within the translation.
    pub fn run_state(&self) -> (state: Option<RunState>)
        ensures
            state == locate_spec(self.program@, self.source_map@, self.hardware.pc),
    {
        locate(&self.program, &self.source_map, self.hardware.pc)
    }
}

impl CommonState for VmState {
    open spec fn machine(&self) -> Machine {
        self.hardware@
    }

    open spec fn breakpoints(&self) -> Seq<Breakpoint> {
        self.hardware.breakpoints@
    }

    fn run(&mut self, step_count: u64) -> (halted: bool)
        ensures
            final(self).program == old(self).program,
            final(self).source_map == old(self).source_map,
            final(self).selected_breakpoint == old(self).selected_breakpoint,
    {
        self.hardware.run(step_count)
    }

    fn ram_mut(&mut self) -> (ram: &mut RAM)
        ensures
            final(self).program == old(self).program,
            final(self).source_map == old(self).source_map,
            final(self).selected_breakpoint == old(self).selected_breakpoint,
    {
        &mut self.hardware.ram
    }

    fn reset(&mut self)
        ensures
            final(self).program == old(self).program,
            final(self).source_map == old(self).source_map,
            final(self).selected_breakpoint == old(self).selected_breakpoint,
    {
        self.hardware.reset();
    }
}

} // verus!
