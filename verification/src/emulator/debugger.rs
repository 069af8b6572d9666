//! The debugger: a session on a machine or on a stack-machine program, the
//! state that every session shares, and the requests of the front end.
//!
//! Loading a program replaces what the debugger runs only if the whole load
//! succeeds; a load that fails is recorded and changes nothing else. The
//! breakpoints belong to the debugger and stay when a program is loaded.

use vstd::prelude::*;
use vstd::utf8::encode_utf8;
use super::common_state::{
    breakpoints_after, selected_after, Action, BreakpointAction, CommonAction, CommonState,
    SharedState,
};
use super::hardware_state::{demo_program, HardwareState};
use super::vm_state::{load_spec, VmError, VmState};
use crate::assembler::assemble_spec;
use crate::error::LoadError;
use crate::hardware::breakpoint::Breakpoint;
use crate::hardware::cpu::{fresh, Hardware, Machine};
use crate::hardware::instruction::Instruction;
use crate::hardware::ram::RAM;
use crate::vm::program::Linked;

verus! {

/// What the debugger runs.
pub enum Session {
    /// A program of the machine.
    Hardware(HardwareState),
    /// A program of the stack machine, translated for the machine.
    Vm(VmState),
}

/// Why a program could not be loaded.
#[derive(Clone, Copy, Debug, PartialEq, Eq, Structural)]
pub enum Failure {
    /// The assembly text is no program.
    Load(LoadError),
    /// The files make no program of the stack machine.
    Vm(VmError),
}

impl Session {
    /// The machine of the session with its breakpoints.
    pub open spec fn hardware_spec(&self) -> Hardware {
        match self {
            Session::Hardware(state) => state.hardware,
            Session::Vm(state) => state.hardware,
        }
    }

    /// The breakpoint that the front end is editing.
    pub open spec fn selected_spec(&self) -> Breakpoint {
        match self {
            Session::Hardware(state) => state.selected_breakpoint,
            Session::Vm(state) => state.selected_breakpoint,
        }
    }

    /// The machine of the session with its breakpoints.
    pub fn hardware(&self) -> (hardware: &Hardware)
        ensures
            *hardware == self.hardware_spec(),
    {
        match self {
            Session::Hardware(state) => &state.hardware,
            Session::Vm(state) => &state.hardware,
        }
    }

    /// The breakpoint that the front end is editing.
    pub fn selected_breakpoint(&self) -> (selected: Breakpoint)
        ensures
            selected == self.selected_spec(),
    {
        match self {
            Session::Hardware(state) => state.selected_breakpoint,
            Session::Vm(state) => state.selected_breakpoint,
        }
    }

    /// Carries out a request about the breakpoints, by
    /// [`reduce_breakpoint`](super::common_state::reduce_breakpoint).
    pub fn reduce_breakpoint(&mut self, action: &BreakpointAction)
        ensures
            final(self).machine() == old(self).machine(),
            final(self).selected_spec() == selected_after(old(self).selected_spec(), *action),
            final(self).breakpoints() == breakpoints_after(
                old(self).breakpoints(),
                old(self).selected_spec(),
                *action,
            ),
            final(self).stays(*old(self)),
    {
        match self {
            Session::Hardware(state) => state.reduce_breakpoint(action),
            Session::Vm(state) => state.reduce_breakpoint(action),
        }
    }

    /// The session is of the same kind as `before` and runs the same
    /// program of the stack machine, if it runs one.
    pub open spec fn stays(&self, before: Session) -> bool {
        match (self, before) {
            (Session::Hardware(_), Session::Hardware(_)) => true,
            (Session::Vm(now), Session::Vm(then)) => now.program == then.program && now.source_map
                == then.source_map,
            _ => false,
        }
    }

    /// Gives the session the breakpoints `breakpoints`, behind those it
    /// has, and the breakpoint `selected` to edit.
    fn adopt(&mut self, breakpoints: &Vec<Breakpoint>, selected: Breakpoint)
        ensures
            final(self).machine() == old(self).machine(),
            final(self).breakpoints() == old(self).breakpoints() + breakpoints@,
            final(self).selected_spec() == selected,
            final(self).stays(*old(self)),
    {
        let mut index: usize = 0;
        while index < breakpoints.len()
            invariant
                index <= breakpoints.len(),
                self.machine() == old(self).machine(),
                self.breakpoints() == old(self).breakpoints() + breakpoints@.take(index as int),
                self.stays(*old(self)),
            decreases breakpoints.len() - index,
        {
            match self {
                Session::Hardware(state) => state.hardware.add_breakpoint(breakpoints[index]),
                Session::Vm(state) => state.hardware.add_breakpoint(breakpoints[index]),
            }
            index += 1;
            assert(self.breakpoints() =~= old(self).breakpoints() + breakpoints@.take(index as int));
        }
        assert(breakpoints@.take(breakpoints.len() as int) == breakpoints@);
        match self {
            Session::Hardware(state) => {
                state.selected_breakpoint = selected;
            },
            Session::Vm(state) => {
                state.selected_breakpoint = selected;
            },
        }
    }
}

impl CommonState for Session {
    open spec fn machine(&self) -> Machine {
        self.hardware_spec()@
    }

    open spec fn breakpoints(&self) -> Seq<Breakpoint> {
        self.hardware_spec().breakpoints@
    }

    fn run(&mut self, step_count: u64) -> (halted: bool)
        ensures
            final(self).selected_spec() == old(self).selected_spec(),
            final(self).stays(*old(self)),
    {
        match self {
            Session::Hardware(state) => state.run(step_count),
            Session::Vm(state) => state.run(step_count),
        }
    }

    fn ram_mut(&mut self) -> (ram: &mut RAM) {
        match self {
            Session::Hardware(state) => state.ram_mut(),
            Session::Vm(state) => state.ram_mut(),
        }
    }

    fn reset(&mut self)
        ensures
            final(self).selected_spec() == old(self).selected_spec(),
            final(self).stays(*old(self)),
    {
        match self {
            Session::Hardware(state) => state.reset(),
            Session::Vm(state) => state.reset(),
        }
    }
}

/// A debugger: what it runs, the state that every session shares, and the
/// failure of the last load, if it failed.
pub struct Debugger {
    pub shared: SharedState,
    pub session: Session,
    pub failure: Option<Failure>,
}

/// The program that a request to load asks for, or why there is none:
/// the instructions and, for a program of the stack machine, the program
/// and its source map. A request that loads nothing asks for none.
pub open spec fn requested(action: Action) -> Option<Result<
    (Seq<Instruction>, Option<(Linked, Seq<usize>)>),
    Failure,
>> {
    match action {
        Action::FilePicked(contents) => Some(
            match assemble_spec(encode_utf8(contents@)) {
                Ok(program) => Ok((program, None)),
                Err(error) => Err(Failure::Load(error)),
            },
        ),
        Action::FilesPicked(files) => Some(
            match load_spec(files@) {
                Ok((linked, instructions, source_map)) => Ok(
                    (instructions, Some((linked, source_map))),
                ),
                Err(error) => Err(Failure::Vm(error)),
            },
        ),
        Action::CloseFile => Some(Ok((demo_program(), None))),
        _ => None,
    }
}

impl Debugger {
    /// A stopped debugger on the demonstration program that wants
    /// `desired_steps_per_second` steps a second.
    pub fn new(desired_steps_per_second: u64) -> (debugger: Debugger)
        ensures
            debugger.shared == SharedState::new(desired_steps_per_second),
            debugger.session is Hardware,
            debugger.session.machine() == fresh(demo_program()),
            debugger.session.breakpoints() == Seq::<Breakpoint>::empty(),
            debugger.failure.is_none(),
    {
        Debugger {
            shared: SharedState::new(desired_steps_per_second),
            session: Session::Hardware(HardwareState::default()),
            failure: None,
        }
    }

    /// Makes `session`, which has no breakpoints yet, what the debugger
    /// runs: it takes over the breakpoints, and the debugger is stopped.
    fn install(&mut self, session: Session)
        requires
            session.breakpoints() == Seq::<Breakpoint>::empty(),
        ensures
            final(self).session.machine() == session.machine(),
            final(self).session.stays(session),
            final(self).session.breakpoints() == old(self).session.breakpoints(),
            final(self).session.selected_spec() == old(self).session.selected_spec(),
            final(self).shared == old(self).shared.reduce(CommonAction::ResetClicked),
            final(self).failure.is_none(),
    {
        let mut session = session;
        session.adopt(&self.session.hardware().breakpoints, self.session.selected_breakpoint());
        assert(session.breakpoints() =~= self.session.breakpoints());
        self.session = session;
        self.shared.run_started = false;
        self.shared.halted = false;
        self.failure = None;
    }

    /// Carries out request `action` and tells whether it asks to quit.
    ///
    /// A request that every session understands changes the shared state
    /// and, for a reset, the machine; a request about breakpoints changes
    /// the breakpoints. A request to load makes the program it names what
    /// the debugger runs, on a machine in its initial state, and stops the
    /// debugger; if the program cannot be loaded, the failure is recorded
    /// and nothing else changes.
    pub fn reduce(&mut self, action: &Action) -> (quit: bool)
        ensures
            quit == (*action == Action::Quit),
            *action == Action::Quit ==> *final(self) == *old(self),
            *action matches Action::Common(common) ==> {
                &&& final(self).shared == old(self).shared.reduce(common)
                &&& final(self).session.machine() == if common == CommonAction::ResetClicked {
                    old(self).session.machine().reset()
                } else {
                    old(self).session.machine()
                }
                &&& final(self).session.breakpoints() == old(self).session.breakpoints()
                &&& final(self).session.selected_spec() == old(self).session.selected_spec()
                &&& final(self).session.stays(old(self).session)
                &&& final(self).failure == old(self).failure
            },
            *action matches Action::Breakpoint(breakpoint) ==> {
                &&& final(self).shared == old(self).shared
                &&& final(self).session.machine() == old(self).session.machine()
                &&& final(self).session.breakpoints() == breakpoints_after(
                    old(self).session.breakpoints(),
                    old(self).session.selected_spec(),
                    breakpoint,
                )
                &&& final(self).session.selected_spec() == selected_after(
                    old(self).session.selected_spec(),
                    breakpoint,
                )
                &&& final(self).session.stays(old(self).session)
                &&& final(self).failure == old(self).failure
            },
            requested(*action) matches Some(Err(failure)) ==> {
                &&& final(self).failure == Some(failure)
                &&& final(self).shared == old(self).shared
                &&& final(self).session == old(self).session
            },
            requested(*action) matches Some(Ok((instructions, program))) ==> {
                &&& final(self).failure.is_none()
                &&& final(self).shared == old(self).shared.reduce(CommonAction::ResetClicked)
                &&& final(self).session.machine() == fresh(instructions)
                &&& final(self).session.breakpoints() == old(self).session.breakpoints()
                &&& final(self).session.selected_spec() == old(self).session.selected_spec()
                &&& match program {
                    None => final(self).session is Hardware,
                    Some((linked, source_map)) => final(self).session matches Session::Vm(state)
                        && state.program@ == linked && state.source_map@ == source_map,
                }
            },
    {
        match action {
            Action::Quit => true,
            Action::Common(common) => {
                if matches!(common, CommonAction::ResetClicked) {
                    self.session.reset();
                }
                self.shared = self.shared.reduce(*common);
                false
            },
            Action::Breakpoint(breakpoint) => {
                self.session.reduce_breakpoint(breakpoint);
                false
            },
            Action::FilePicked(contents) => {
                match HardwareState::from_hack_file_contents(contents.as_str()) {
                    Ok(state) => self.install(Session::Hardware(state)),
                    Err(error) => {
                        self.failure = Some(Failure::Load(error));
                    },
                }
                false
            },
            Action::FilesPicked(files) => {
                match VmState::from_files(files) {
                    Ok(state) => self.install(Session::Vm(state)),
                    Err(error) => {
                        self.failure = Some(Failure::Vm(error));
                    },
                }
                false
            },
            Action::CloseFile => {
                self.install(Session::Hardware(HardwareState::default()));
                false
            },
        }
    }
}

} // verus!
