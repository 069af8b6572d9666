//! The state that every debugging session has, whatever it runs, and the
//! requests that change it.
//!
//! A session is stopped, running or halted. A run request makes it run; a
//! pause request stops it; a run of the machine that ends in a halt or at a
//! breakpoint makes it halted; a reset returns it to stopped from anywhere,
//! with the machine in its initial state.

use vstd::prelude::*;
use crate::hardware::breakpoint::{Breakpoint, BreakpointVar};
use crate::hardware::cpu::{Hardware, Machine};
use crate::hardware::instruction::Word;
use crate::hardware::ram::{KEYBOARD, RAM};

verus! {

/// A machine under the debugger: it can be run for a number of steps, reset,
/// and have its memory written from outside.
pub trait CommonState {
    /// The machine, as a mathematical value.
    spec fn machine(&self) -> Machine;

    /// The breakpoints of the session.
    spec fn breakpoints(&self) -> Seq<Breakpoint>;

    /// Executes up to `step_count` instructions, stopping early at a halt or
    /// a breakpoint, and tells whether it stopped early.
    fn run(&mut self, step_count: u64) -> (halted: bool)
        ensures
            (final(self).machine(), halted) == old(self).machine().run(
                old(self).breakpoints(),
                step_count as nat,
            ),
            final(self).breakpoints() == old(self).breakpoints(),
    ;

    /// The data memory, for the front end to write the keyboard word.
    fn ram_mut(&mut self) -> (ram: &mut RAM)
        ensures
            ram@ == old(self).machine().ram,
            final(self).machine() == old(self).machine().with_ram(final(ram)@),
            final(self).breakpoints() == old(self).breakpoints(),
    ;

    /// Returns the machine to its initial state. The breakpoints stay.
    fn reset(&mut self)
        ensures
            final(self).machine() == old(self).machine().reset(),
            final(self).breakpoints() == old(self).breakpoints(),
    ;
}

/// A request about the breakpoints of the session.
#[derive(Clone, Copy, Debug, PartialEq, Eq, Structural)]
pub enum BreakpointAction {
    AddClicked,
    VariableChanged(BreakpointVar),
    ValueChanged(i16),
    RemoveClicked(usize),
}

/// A request that every kind of session understands.
#[derive(Clone, Copy, Debug, PartialEq, Eq, Structural)]
pub enum CommonAction {
    StepClicked,
    RunClicked,
    PauseClicked,
    ResetClicked,
    BreakpointsClicked,
    BreakpointsClosed,
    SpeedSliderMoved(u64),
}

/// Anything the front end can ask of a session.
#[derive(Clone, Debug, PartialEq, Eq)]
pub enum Action {
    Breakpoint(BreakpointAction),
    Common(CommonAction),
    /// The names and contents of the stack-machine files to load.
    FilesPicked(Vec<(String, String)>),
    /// The contents of the assembly file to load.
    FilePicked(String),
    CloseFile,
    Quit,
}

/// Whether a session is stopped, running or halted.
#[derive(Clone, Copy, Debug, PartialEq, Eq, Structural)]
pub enum RunStatus {
    Stopped,
    Running,
    Halted,
}

/// The part of a session's state that does not depend on what it runs.
#[derive(Clone, Copy, Debug, PartialEq, Eq, Structural)]
pub struct SharedState {
    pub desired_steps_per_second: u64,
    pub run_started: bool,
    pub breakpoints_open: bool,
    /// The last run ended in a halt or at a breakpoint, and nothing has been
    /// asked of the session since that starts or resets it.
    pub halted: bool,
}

impl SharedState {
    /// A stopped session that wants `desired_steps_per_second` steps a second.
    pub open spec fn stopped(desired_steps_per_second: u64) -> SharedState {
        SharedState {
            desired_steps_per_second,
            run_started: false,
            breakpoints_open: false,
            halted: false,
        }
    }

    /// A stopped session that wants `desired_steps_per_second` steps a second.
    #[verifier::when_used_as_spec(stopped)]
    pub fn new(desired_steps_per_second: u64) -> (shared: SharedState)
        ensures
            shared == SharedState::stopped(desired_steps_per_second),
    {
        SharedState { desired_steps_per_second, run_started: false, breakpoints_open: false, halted: false }
    }

    /// Whether the session is stopped, running or halted.
    pub open spec fn status_spec(self) -> RunStatus {
        if self.run_started {
            RunStatus::Running
        } else if self.halted {
            RunStatus::Halted
        } else {
            RunStatus::Stopped
        }
    }

    /// Whether the session is stopped, running or halted.
    #[verifier::when_used_as_spec(status_spec)]
    pub fn status(self) -> (status: RunStatus)
        ensures
            status == self.status_spec(),
    {
        if self.run_started {
            RunStatus::Running
        } else if self.halted {
            RunStatus::Halted
        } else {
            RunStatus::Stopped
        }
    }

    /// The shared state after request `action`.
    pub open spec fn reduce_spec(self, action: CommonAction) -> SharedState {
        match action {
            CommonAction::StepClicked => self,
            CommonAction::RunClicked => SharedState { run_started: true, halted: false, ..self },
            CommonAction::PauseClicked => if self.run_started {
                SharedState { run_started: false, halted: false, ..self }
            } else {
                self
            },
            CommonAction::ResetClicked => SharedState { run_started: false, halted: false, ..self },
            CommonAction::BreakpointsClicked => SharedState {
                breakpoints_open: !self.breakpoints_open,
                ..self
            },
            CommonAction::BreakpointsClosed => SharedState { breakpoints_open: false, ..self },
            CommonAction::SpeedSliderMoved(value) => SharedState {
                desired_steps_per_second: value,
                ..self
            },
        }
    }

    /// The shared state after request `action`.
    #[verifier::when_used_as_spec(reduce_spec)]
    pub fn reduce(self, action: CommonAction) -> (after: SharedState)
        ensures
            after == self.reduce_spec(action),
    {
        let mut after = self;
        match action {
            CommonAction::StepClicked => {},
            CommonAction::RunClicked => {
                after.run_started = true;
                after.halted = false;
            },
            CommonAction::PauseClicked => {
                if after.run_started {
                    after.run_started = false;
                    after.halted = false;
                }
            },
            CommonAction::ResetClicked => {
                after.run_started = false;
                after.halted = false;
            },
            CommonAction::BreakpointsClicked => {
                after.breakpoints_open = !after.breakpoints_open;
            },
            CommonAction::BreakpointsClosed => {
                after.breakpoints_open = false;
            },
            CommonAction::SpeedSliderMoved(new_value) => {
                after.desired_steps_per_second = new_value;
            },
        }
        after
    }

    /// The shared state after a run that reported `halted`.
    pub open spec fn after_run(self, halted: bool) -> SharedState {
        if halted {
            SharedState { run_started: false, halted: true, ..self }
        } else {
            self
        }
    }
}

/// Carries out request `action` on the session: only a reset touches the
/// machine, every other request changes the shared state alone.
pub fn reduce_common<S: CommonState>(state: &mut S, shared: &mut SharedState, action: &CommonAction)
    ensures
        *final(shared) == old(shared).reduce(*action),
        final(state).breakpoints() == old(state).breakpoints(),
        final(state).machine() == if *action == CommonAction::ResetClicked {
            old(state).machine().reset()
        } else {
            old(state).machine()
        },
{
    if matches!(action, CommonAction::ResetClicked) {
        state.reset();
    }
    *shared = shared.reduce(*action);
}

/// The breakpoint under edit after request `action`: a change of variable
/// or value changes it, nothing else does.
pub open spec fn selected_after(selected: Breakpoint, action: BreakpointAction) -> Breakpoint {
    match action {
        BreakpointAction::VariableChanged(var) => Breakpoint { var, value: selected.value },
        BreakpointAction::ValueChanged(value) => Breakpoint { var: selected.var, value },
        _ => selected,
    }
}

/// The breakpoints of the machine after request `action`: the breakpoint
/// under edit is added behind them, or the one at a position is removed;
/// a position without a breakpoint changes nothing.
pub open spec fn breakpoints_after(
    breakpoints: Seq<Breakpoint>,
    selected: Breakpoint,
    action: BreakpointAction,
) -> Seq<Breakpoint> {
    match action {
        BreakpointAction::AddClicked => breakpoints.push(selected),
        BreakpointAction::RemoveClicked(index) => if index < breakpoints.len() {
            breakpoints.remove(index as int)
        } else {
            breakpoints
        },
        _ => breakpoints,
    }
}

/// Carries out a request about the breakpoints on the breakpoint under edit
/// and on the machine's breakpoints. The machine itself stays as it is.
pub fn reduce_breakpoint(selected: &mut Breakpoint, hardware: &mut Hardware, action: &BreakpointAction)
    ensures
        final(hardware)@ == old(hardware)@,
        *final(selected) == selected_after(*old(selected), *action),
        final(hardware).breakpoints@ == breakpoints_after(
            old(hardware).breakpoints@,
            *old(selected),
            *action,
        ),
{
    match action {
        BreakpointAction::AddClicked => {
            hardware.add_breakpoint(*selected);
        },
        BreakpointAction::VariableChanged(var) => {
            selected.var = *var;
        },
        BreakpointAction::ValueChanged(value) => {
            selected.value = *value;
        },
        BreakpointAction::RemoveClicked(index) => {
            let _ = hardware.remove_breakpoint(*index);
        },
    }
}

/// The moves of a session between stopped, running and halted: a run request
/// makes it run, from anywhere; a pause request stops a running session; a
/// reset stops it, from anywhere; a run of the machine that halts makes it
/// halted; no other request and no other run changes where it is.
pub proof fn status_moves(shared: SharedState, action: CommonAction, halted: bool)
    ensures
        shared.reduce(action).status_spec() == match action {
            CommonAction::RunClicked => RunStatus::Running,
            CommonAction::ResetClicked => RunStatus::Stopped,
            CommonAction::PauseClicked => if shared.status_spec() == RunStatus::Running {
                RunStatus::Stopped
            } else {
                shared.status_spec()
            },
            _ => shared.status_spec(),
        },
        shared.after_run(halted).status_spec() == if halted {
            RunStatus::Halted
        } else {
            shared.status_spec()
        },
{
}

/// Two resets in a row leave the session as one does.
pub proof fn reset_twice_is_reset_once(shared: SharedState, machine: Machine)
    ensures
        shared.reduce(CommonAction::ResetClicked).reduce(CommonAction::ResetClicked) == shared.reduce(
            CommonAction::ResetClicked,
        ),
        machine.reset().reset() == machine.reset(),
        shared.reduce(CommonAction::ResetClicked).status_spec() == RunStatus::Stopped,
{
}

/// Runs the machine for one frame: with a budget of zero nothing happens;
/// otherwise the keyboard word is set to the code of the key that is down
/// (zero if none is), the machine runs for at most `steps_to_run` steps,
/// and a run that ends in a halt or at a breakpoint halts the session.
pub fn run_steps<S: CommonState>(
    state: &mut S,
    shared: &mut SharedState,
    steps_to_run: u64,
    key_down: Option<Word>,
)
    ensures
        final(state).breakpoints() == old(state).breakpoints(),
        steps_to_run == 0 ==> final(state).machine() == old(state).machine() && *final(shared) == *old(
            shared,
        ),
        steps_to_run > 0 ==> ({
            let code = if key_down is Some { key_down->0 } else { 0 };
            let keyed = old(state).machine().with_ram(
                old(state).machine().ram.update(KEYBOARD as int, code),
            );
            let (machine, halted) = keyed.run(old(state).breakpoints(), steps_to_run as nat);
            final(state).machine() == machine && *final(shared) == old(shared).after_run(halted)
        }),
{
    if steps_to_run > 0 {
        let code: Word = match key_down {
            Some(code) => code,
            None => 0,
        };
        state.ram_mut().set_keyboard(code);
        if state.run(steps_to_run) {
            shared.run_started = false;
            shared.halted = true;
        }
    }
}

/// The pace of a run: how many steps it has made, since when, and at which
/// desired rate. Times are readings of one steady clock, in microseconds.
#[derive(Clone, Copy, Debug, PartialEq, Eq, Structural)]
pub struct PerformanceData {
    pub steps_during_last_frame: u64,
    pub total_steps: u64,
    pub run_start: Option<u64>,
    pub previous_desired_steps_per_second: u64,
}

/// The microseconds of a second.
pub const MICROS_PER_SECOND: u64 = 1_000_000;

/// Frames per second that the step limit of a frame is reckoned for.
pub const FRAMES_PER_SECOND: u64 = 60;

/// `value`, or the largest `u64` if it is larger than that.
pub open spec fn clamp_u64(value: int) -> u64 {
    if value > u64::MAX {
        u64::MAX
    } else {
        value as u64
    }
}

/// The steps that a run at `steps_per_second` should have made after
/// `elapsed` microseconds.
pub open spec fn wanted_steps(steps_per_second: u64, elapsed: u64) -> u64 {
    clamp_u64(steps_per_second * elapsed / MICROS_PER_SECOND as int)
}

/// The most steps that a frame may take after a frame that took
/// `last_frame_time` microseconds for `steps` steps: as many as fit into a
/// sixtieth of a second at that speed. After a frame without steps there is
/// no limit.
pub open spec fn frame_limit(steps: u64, last_frame_time: u64) -> u64 {
    if steps == 0 || last_frame_time == 0 {
        u64::MAX
    } else {
        clamp_u64(steps * MICROS_PER_SECOND / (last_frame_time * FRAMES_PER_SECOND))
    }
}

/// The rate of `steps` steps in `elapsed` microseconds, in steps per second,
/// rounded to the nearest whole number: a half is rounded up.
pub open spec fn rounded_rate(steps: u64, elapsed: u64) -> u64 {
    clamp_u64((2 * steps * MICROS_PER_SECOND + elapsed) / (2 * elapsed))
}

impl PerformanceData {
    /// No run has started.
    pub open spec fn idle(desired_steps_per_second: u64) -> PerformanceData {
        PerformanceData {
            steps_during_last_frame: 0,
            total_steps: 0,
            run_start: None,
            previous_desired_steps_per_second: desired_steps_per_second,
        }
    }

    /// The pace after the frame at time `now`, and the number of steps that
    /// the frame is to run.
    ///
    /// A session that is not running runs one step if a step was asked for
    /// and none otherwise. A running session runs as many steps as it is
    /// behind its desired rate, but no more than the limit that the last
    /// frame sets. The count starts anew whenever the session is not
    /// running or the desired rate has changed.
    pub open spec fn next(
        self,
        desired_steps_per_second: u64,
        last_frame_time: u64,
        now: u64,
        running: bool,
        step_clicked: bool,
    ) -> (PerformanceData, u64) {
        let start = if !running || self.previous_desired_steps_per_second != desired_steps_per_second {
            PerformanceData::idle(desired_steps_per_second)
        } else {
            self
        };
        if !running {
            (start, if step_clicked { 1u64 } else { 0u64 })
        } else {
            let run_start = if start.run_start is Some { start.run_start->0 } else { now };
            let elapsed = if now >= run_start { (now - run_start) as u64 } else { 0u64 };
            let wanted = wanted_steps(desired_steps_per_second, elapsed);
            let behind = if wanted >= start.total_steps { (wanted - start.total_steps) as u64 } else { 0u64 };
            let limit = frame_limit(start.steps_during_last_frame, last_frame_time);
            let steps = if behind <= limit { behind } else { limit };
            (
                PerformanceData {
                    steps_during_last_frame: steps,
                    total_steps: (start.total_steps + steps) as u64,
                    run_start: Some(run_start),
                    previous_desired_steps_per_second: desired_steps_per_second,
                },
                steps,
            )
        }
    }

    /// The rate that the run has had so far, in steps per second, at time
    /// `now`, rounded to the nearest whole number (a half is rounded up);
    /// `None` while no run has started or no time has passed.
    pub open spec fn actual_steps_per_second_spec(self, now: u64) -> Option<u64> {
        if self.run_start is Some && now > self.run_start->0 {
            Some(rounded_rate(self.total_steps, (now - self.run_start->0) as u64))
        } else {
            None
        }
    }

    /// The rate that the run has had so far, in steps per second, at time
    /// `now`, rounded to the nearest whole number.
    pub fn actual_steps_per_second(&self, now: u64) -> (rate: Option<u64>)
        ensures
            rate == self.actual_steps_per_second_spec(now),
    {
        match self.run_start {
            Some(run_start) => {
                if now > run_start {
                    let elapsed: u128 = (now - run_start) as u128;
                    let doubled: u128 = self.total_steps as u128 * 2_000_000 + elapsed;
                    let quotient: u128 = doubled / (2 * elapsed);
                    if quotient > u64::MAX as u128 {
                        Some(u64::MAX)
                    } else {
                        Some(quotient as u64)
                    }
                } else {
                    None
                }
            },
            None => None,
        }
    }
}

impl Default for PerformanceData {
    fn default() -> (data: PerformanceData)
        ensures
            data == PerformanceData::idle(0),
    {
        PerformanceData {
            steps_during_last_frame: 0,
            total_steps: 0,
            run_start: None,
            previous_desired_steps_per_second: 0,
        }
    }
}

/// `value * numerator / denominator`, rounded down and clamped to `u64`.
fn scale(value: u64, numerator: u64, denominator: u128) -> (out: u64)
    requires
        denominator > 0,
    ensures
        out == clamp_u64(value * numerator / denominator as int),
{
    assert(value * numerator <= 0xffff_ffff_ffff_ffff * 0xffff_ffff_ffff_ffff) by (nonlinear_arith)
        requires
            value <= 0xffff_ffff_ffff_ffff,
            numerator <= 0xffff_ffff_ffff_ffff,
    ;
    let product: u128 = value as u128 * numerator as u128;
    let quotient: u128 = product / denominator;
    if quotient > u64::MAX as u128 {
        u64::MAX
    } else {
        quotient as u64
    }
}

/// The number of steps that the frame at time `now` is to run, by
/// [`PerformanceData::next`]; `performance_data` is brought up to date.
pub fn steps_to_run(
    desired_steps_per_second: u64,
    last_frame_time: u64,
    now: u64,
    performance_data: &mut PerformanceData,
    shared: &SharedState,
    action: &Option<Action>,
) -> (steps: u64)
    ensures
        (*final(performance_data), steps) == old(performance_data).next(
            desired_steps_per_second,
            last_frame_time,
            now,
            shared.run_started,
            *action == Some(Action::Common(CommonAction::StepClicked)),
        ),
{
    if !shared.run_started || performance_data.previous_desired_steps_per_second
        != desired_steps_per_second {
        performance_data.run_start = None;
        performance_data.steps_during_last_frame = 0;
        performance_data.total_steps = 0;
        performance_data.previous_desired_steps_per_second = desired_steps_per_second;
    }
    if !shared.run_started {
        return match action {
            Some(Action::Common(CommonAction::StepClicked)) => 1,
            _ => 0,
        };
    }
    let run_start = match performance_data.run_start {
        Some(run_start) => run_start,
        None => now,
    };
    performance_data.run_start = Some(run_start);
    let elapsed = if now >= run_start { now - run_start } else { 0 };
    let wanted = scale(desired_steps_per_second, elapsed, MICROS_PER_SECOND as u128);
    let mut steps = if wanted >= performance_data.total_steps {
        wanted - performance_data.total_steps
    } else {
        0
    };
    if performance_data.steps_during_last_frame > 0 && last_frame_time > 0 {
        let frame: u128 = last_frame_time as u128 * 60;
        let limit = scale(
            performance_data.steps_during_last_frame,
            MICROS_PER_SECOND,
            frame,
        );
        if limit < steps {
            steps = limit;
        }
    }
    performance_data.steps_during_last_frame = steps;
    performance_data.total_steps = performance_data.total_steps + steps;
    steps
}

} // verus!
