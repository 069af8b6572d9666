//! A debugging session on the bare machine.

use vstd::prelude::*;
use vstd::string::StringSliceAdditionalSpecFns;
use super::common_state::{
    breakpoints_after, reduce_breakpoint, selected_after, BreakpointAction, CommonState,
};
use crate::assembler;
use crate::binary;
use crate::error::LoadError;
use crate::hardware::breakpoint::{Breakpoint, BreakpointVar};
use crate::hardware::cpu::{fresh, Hardware, Machine};
use crate::hardware::instruction::Instruction;
use crate::hardware::ram::RAM;

verus! {

/// A debugging session on a program of the machine.
pub struct HardwareState {
    /// The breakpoint that the front end is editing.
    pub selected_breakpoint: Breakpoint,
    pub hardware: Hardware,
}

impl HardwareState {
    /// The breakpoint that a new session offers for editing.
    pub open spec fn first_breakpoint() -> Breakpoint {
        Breakpoint { var: BreakpointVar::A, value: 0 }
    }

    /// A new session on `hardware`.
    pub fn new(hardware: Hardware) -> (state: HardwareState)
        ensures
            state.hardware == hardware,
            state.selected_breakpoint == HardwareState::first_breakpoint(),
    {
        HardwareState { selected_breakpoint: Breakpoint { var: BreakpointVar::A, value: 0 }, hardware }
    }

    /// A session on the program which `contents` writes as lines of sixteen
    /// binary digits: the machine is in its initial state, and no breakpoint
    /// is set.
    pub fn from_file_contents(contents: &str) -> (result: Result<HardwareState, LoadError>)
        ensures
            match binary::parse_spec(contents.spec_bytes()) {
                Ok(program) => result is Ok && result->Ok_0.hardware@ == fresh(program)
                    && result->Ok_0.hardware.breakpoints@ == Seq::<Breakpoint>::empty()
                    && result->Ok_0.selected_breakpoint == HardwareState::first_breakpoint(),
                Err(error) => result == Err::<HardwareState, LoadError>(error),
            },
    {
        match Hardware::from_file_contents(contents) {
            Ok(hardware) => Ok(HardwareState::new(hardware)),
            Err(error) => Err(error),
        }
    }

    /// A session on the program which the Hack assembly text `contents`
    /// stands for: the machine is in its initial state, and no breakpoint is
    /// set.
    pub fn from_hack_file_contents(contents: &str) -> (result: Result<HardwareState, LoadError>)
        ensures
            match assembler::assemble_spec(contents.spec_bytes()) {
                Ok(program) => result is Ok && result->Ok_0.hardware@ == fresh(program)
                    && result->Ok_0.hardware.breakpoints@ == Seq::<Breakpoint>::empty()
                    && result->Ok_0.selected_breakpoint == HardwareState::first_breakpoint(),
                Err(error) => result == Err::<HardwareState, LoadError>(error),
            },
    {
        match Hardware::from_hack_file_contents(contents) {
            Ok(hardware) => Ok(HardwareState::new(hardware)),
            Err(error) => Err(error),
        }
    }

    /// Carries out a request about the breakpoints, by
    /// [`reduce_breakpoint`](super::common_state::reduce_breakpoint).
    pub fn reduce_breakpoint(&mut self, action: &BreakpointAction)
        ensures
            final(self).hardware@ == old(self).hardware@,
            final(self).selected_breakpoint == selected_after(old(self).selected_breakpoint, *action),
            final(self).hardware.breakpoints@ == breakpoints_after(
                old(self).hardware.breakpoints@,
                old(self).selected_breakpoint,
                *action,
            ),
    {
        reduce_breakpoint(&mut self.selected_breakpoint, &mut self.hardware, action);
    }
}

/// The program of a new session: it fills the screen, waits for a key, clears
/// the screen, waits for the key to be let go, and starts again.
pub open spec fn demo_program() -> Seq<Instruction> {
    seq![
        Instruction { raw: 16384 },
        Instruction { raw: 60432 },
        Instruction { raw: 16 },
        Instruction { raw: 58248 },
        Instruction { raw: 17 },
        Instruction { raw: 60040 },
        Instruction { raw: 24576 },
        Instruction { raw: 64528 },
        Instruction { raw: 12 },
        Instruction { raw: 58114 },
        Instruction { raw: 17 },
        Instruction { raw: 61064 },
        Instruction { raw: 17 },
        Instruction { raw: 64528 },
        Instruction { raw: 16 },
        Instruction { raw: 65000 },
        Instruction { raw: 58120 },
        Instruction { raw: 24576 },
        Instruction { raw: 60560 },
        Instruction { raw: 16 },
        Instruction { raw: 62672 },
        Instruction { raw: 4 },
        Instruction { raw: 58115 },
        Instruction { raw: 16384 },
        Instruction { raw: 60432 },
        Instruction { raw: 16 },
        Instruction { raw: 58248 },
        Instruction { raw: 4 },
        Instruction { raw: 60039 },
    ]
}

impl Default for HardwareState {
    /// A session on the demonstration program.
    fn default() -> (state: HardwareState)
        ensures
            state.hardware@ == fresh(demo_program()),
            state.hardware.breakpoints@ == Seq::<Breakpoint>::empty(),
            state.selected_breakpoint == HardwareState::first_breakpoint(),
    {
        let raw: [u16; 29] = [
            16384, 60432, 16, 58248, 17, 60040, 24576, 64528, 12, 58114, 17, 61064, 17, 64528, 16,
            65000, 58120, 24576, 60560, 16, 62672, 4, 58115, 16384, 60432, 16, 58248, 4, 60039,
        ];
        let mut program: Vec<Instruction> = Vec::new();
        let mut i: usize = 0;
        while i < 29
            invariant
                i <= 29,
                program.len() == i,
                forall|k: int| 0 <= k < i ==> program@[k].raw == #[trigger] raw@[k],
            decreases 29 - i,
        {
            program.push(Instruction::new(raw[i]));
            i += 1;
        }
        assert(program@ =~= demo_program());
        let mut hardware = Hardware::new();
        let loaded = hardware.load_program(program);
        HardwareState::new(hardware)
    }
}

impl CommonState for HardwareState {
    open spec fn machine(&self) -> Machine {
        self.hardware@
    }

    open spec fn breakpoints(&self) -> Seq<Breakpoint> {
        self.hardware.breakpoints@
    }

    fn run(&mut self, step_count: u64) -> (halted: bool)
        ensures
            final(self).selected_breakpoint == old(self).selected_breakpoint,
    {
        self.hardware.run(step_count)
    }

    fn ram_mut(&mut self) -> (ram: &mut RAM)
        ensures
            final(self).selected_breakpoint == old(self).selected_breakpoint,
    {
        &mut self.hardware.ram
    }

    fn reset(&mut self)
        ensures
            final(self).selected_breakpoint == old(self).selected_breakpoint,
    {
        self.hardware.reset();
    }
}

} // verus!
