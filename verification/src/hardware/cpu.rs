//! The processor: registers, memories, and the execution of instructions.
//!
//! One step fetches the instruction at the program counter, decodes and
//! executes it. It is a total function of the machine's state. A machine
//! whose next instruction cannot be executed at all (the program counter
//! lies outside the instruction memory, or the instruction reads or writes
//! the addressed memory cell while the address register lies outside the
//! data memory) is stuck: a step leaves it as it is and reports a halt.

use vstd::prelude::*;
use super::alu::{alu, alu_spec, wrap16};
use super::breakpoint::{Breakpoint, BreakpointVar};
use super::instruction::{decode_word, Decoded, Instruction, Jump, Word};
use super::ram::{store_spec, KEYBOARD, RAM};
use crate::error::LoadError;

verus! {

/// Number of instructions that the instruction memory holds.
pub const ROM_SIZE: usize = 32768;

/// The state of the machine as a mathematical value.
pub struct Machine {
    /// The address register.
    pub a: Word,
    /// The data register.
    pub d: Word,
    /// The program counter.
    pub pc: Word,
    /// The data memory, 32768 words.
    pub ram: Seq<Word>,
    /// The instruction memory, 32768 instructions.
    pub rom: Seq<Instruction>,
}

impl Machine {
    /// The instruction that the program counter points at.
    pub open spec fn current(self) -> Decoded {
        decode_word(self.rom[self.pc as int].raw)
    }

    /// The next instruction cannot be executed: it lies outside the
    /// instruction memory, or it uses a memory cell outside the data memory.
    pub open spec fn stuck(self) -> bool {
        self.pc < 0 || (self.current().touches_memory() && self.a < 0)
    }

    /// The machine after one step.
    ///
    /// An address instruction loads its immediate into the address register.
    /// A compute instruction runs the ALU on the data register and on the
    /// address register or the cell it addresses, then stores the output in
    /// each destination; the memory destination is the cell addressed before
    /// the address register is replaced, and the keyboard cell refuses the
    /// write. The program counter then becomes the address register's new
    /// value if the jump condition holds of the output, and moves on by one
    /// otherwise.
    pub open spec fn step(self) -> Machine {
        if self.stuck() {
            self
        } else {
            match self.current() {
                Decoded::Address { value } => Machine {
                    a: value as Word,
                    pc: wrap16(self.pc + 1),
                    ..self
                },
                Decoded::Compute { use_memory, function, dest, jump, .. } => {
                    let operand = if use_memory { self.ram[self.a as int] } else { self.a };
                    let out = alu_spec(function, self.d, operand);
                    let a = if dest.a { out } else { self.a };
                    Machine {
                        a,
                        d: if dest.d { out } else { self.d },
                        pc: if jump.holds_spec(out) { a } else { wrap16(self.pc + 1) },
                        ram: if dest.m { store_spec(self.ram, self.a, out) } else { self.ram },
                        rom: self.rom,
                    }
                },
            }
        }
    }

    /// Whether the next step reports a halt: the machine is stuck, or the
    /// instruction is an unconditional jump to itself that leaves the
    /// machine as it was.
    pub open spec fn halts(self) -> bool {
        self.stuck() || (self.current() matches Decoded::Compute { jump, .. } && jump == Jump::Always
            && self.step() == self)
    }

    /// The machine after `count` steps.
    pub open spec fn after(self, count: nat) -> Machine
        decreases count,
    {
        if count == 0 {
            self
        } else {
            self.step().after((count - 1) as nat)
        }
    }

    /// Whether breakpoint `breakpoint` matches this state.
    pub open spec fn hits(self, breakpoint: Breakpoint) -> bool {
        match breakpoint.var {
            BreakpointVar::A => self.a == breakpoint.value,
            BreakpointVar::D => self.d == breakpoint.value,
            BreakpointVar::PC => self.pc == breakpoint.value,
            BreakpointVar::RAM(address) => 0 <= address && self.ram[address as int] == breakpoint.value,
        }
    }

    /// Whether any of `breakpoints` matches this state.
    pub open spec fn hits_any(self, breakpoints: Seq<Breakpoint>) -> bool {
        exists|i: int| 0 <= i < breakpoints.len() && self.hits(#[trigger] breakpoints[i])
    }

    /// Whether a run stops with step number `count` (counted from 1): that
    /// step reports a halt, or a breakpoint matches the state after it.
    pub open spec fn stops_at(self, breakpoints: Seq<Breakpoint>, count: nat) -> bool {
        count >= 1 && (self.after((count - 1) as nat).halts() || self.after(count).hits_any(
            breakpoints,
        ))
    }

    /// The state that a run of at most `budget` steps ends in, and whether it
    /// stopped at a halt or a breakpoint.
    pub open spec fn run(self, breakpoints: Seq<Breakpoint>, budget: nat) -> (Machine, bool)
        decreases budget,
    {
        if budget == 0 {
            (self, false)
        } else if self.halts() || self.step().hits_any(breakpoints) {
            (self.step(), true)
        } else {
            self.step().run(breakpoints, (budget - 1) as nat)
        }
    }

    /// The machine with the data memory replaced by `ram`.
    pub open spec fn with_ram(self, ram: Seq<Word>) -> Machine {
        Machine { ram, ..self }
    }

    /// The machine after a reset: registers and program counter zero, the
    /// data memory cleared, the program kept.
    pub open spec fn reset(self) -> Machine {
        Machine { a: 0, d: 0, pc: 0, ram: Seq::new(32768, |i: int| 0i16), rom: self.rom }
    }
}

/// The machine that holds `program` and is otherwise in its initial state.
pub open spec fn fresh(program: Seq<Instruction>) -> Machine {
    Machine { a: 0, d: 0, pc: 0, ram: Seq::new(32768, |i: int| 0i16), rom: rom_of(program) }
}

/// The instruction memory that holds `program` from address 0 on, and the
/// instruction `@0` in every cell after it.
pub open spec fn rom_of(program: Seq<Instruction>) -> Seq<Instruction> {
    Seq::new(32768, |i: int| if i < program.len() { program[i] } else { Instruction { raw: 0 } })
}

/// A run stops at the first step that reports a halt or after which a
/// breakpoint matches, and the machine is then in the state that this many
/// single steps lead to.
pub proof fn run_stops_at_first(machine: Machine, breakpoints: Seq<Breakpoint>, budget: nat, count: nat)
    requires
        1 <= count <= budget,
        machine.stops_at(breakpoints, count),
        forall|earlier: nat| 1 <= earlier < count ==> !machine.stops_at(breakpoints, earlier),
    ensures
        machine.run(breakpoints, budget) == (machine.after(count), true),
    decreases count,
{
    reveal_with_fuel(Machine::after, 2);
    if count > 1 {
        assert(!machine.stops_at(breakpoints, 1));
        let next = machine.step();
        assert forall|earlier: nat| 1 <= earlier < count - 1 implies !next.stops_at(
            breakpoints,
            earlier,
        ) by {
            assert(!machine.stops_at(breakpoints, earlier + 1));
        }
        run_stops_at_first(next, breakpoints, (budget - 1) as nat, (count - 1) as nat);
    }
}

/// A run during which no step reports a halt and no breakpoint matches uses
/// up its budget, and the machine is then in the state that this many
/// single steps lead to.
pub proof fn run_uses_budget(machine: Machine, breakpoints: Seq<Breakpoint>, budget: nat)
    requires
        forall|count: nat| 1 <= count <= budget ==> !machine.stops_at(breakpoints, count),
    ensures
        machine.run(breakpoints, budget) == (machine.after(budget), false),
    decreases budget,
{
    reveal_with_fuel(Machine::after, 2);
    if budget > 0 {
        assert(!machine.stops_at(breakpoints, 1));
        let next = machine.step();
        assert forall|count: nat| 1 <= count <= budget - 1 implies !next.stops_at(
            breakpoints,
            count,
        ) by {
            assert(!machine.stops_at(breakpoints, count + 1));
        }
        run_uses_budget(next, breakpoints, (budget - 1) as nat);
    }
}

/// A run never makes more steps than its budget: it ends in the state that
/// some number of single steps, at most the budget, lead to.
pub proof fn run_makes_steps(machine: Machine, breakpoints: Seq<Breakpoint>, budget: nat) -> (count: nat)
    ensures
        count <= budget,
        machine.run(breakpoints, budget).0 == machine.after(count),
        machine.run(breakpoints, budget).1 ==> count >= 1 && machine.stops_at(breakpoints, count),
        !machine.run(breakpoints, budget).1 ==> count == budget,
    decreases budget,
{
    reveal_with_fuel(Machine::after, 2);
    if budget == 0 {
        0
    } else if machine.halts() || machine.step().hits_any(breakpoints) {
        1
    } else {
        let rest = run_makes_steps(machine.step(), breakpoints, (budget - 1) as nat);
        rest + 1
    }
}

/// A run may be made in parts: a run that does not stop, followed by a run
/// from where it ended, is one run with both budgets together; a run that
/// stops is the run with the larger budget too.
pub proof fn run_in_parts(machine: Machine, breakpoints: Seq<Breakpoint>, first: nat, second: nat)
    ensures
        machine.run(breakpoints, first + second) == if machine.run(breakpoints, first).1 {
            machine.run(breakpoints, first)
        } else {
            machine.run(breakpoints, first).0.run(breakpoints, second)
        },
    decreases first,
{
    if first > 0 && !(machine.halts() || machine.step().hits_any(breakpoints)) {
        run_in_parts(machine.step(), breakpoints, (first - 1) as nat, second);
    }
}

/// After a compute instruction that can be executed, the program counter is
/// the address register's value if the jump condition holds of the ALU
/// output, and one more than before otherwise.
pub proof fn jump_sets_program_counter(machine: Machine)
    requires
        !machine.stuck(),
        machine.current() is Compute,
    ensures
        ({
            let operand = if machine.current()->use_memory {
                machine.ram[machine.a as int]
            } else {
                machine.a
            };
            let out = alu_spec(machine.current()->function, machine.d, operand);
            machine.step().pc == if machine.current()->jump.holds_spec(out) {
                machine.step().a
            } else {
                wrap16(machine.pc + 1)
            }
        }),
{
}

/// A machine that reports a halt stays in the state it is in, however many
/// steps it makes.
pub proof fn halt_repeats(machine: Machine, count: nat)
    requires
        machine.halts(),
    ensures
        machine.after(count) == machine,
    decreases count,
{
    if count > 0 {
        halt_repeats(machine, (count - 1) as nat);
    }
}

/// A second reset changes nothing.
pub proof fn reset_is_idempotent(machine: Machine)
    ensures
        machine.reset().reset() == machine.reset(),
{
}

/// An instruction memory with the instruction `@0` in every cell.
fn blank_rom() -> (rom: [Instruction; 32768])
    ensures
        forall|i: int| 0 <= i < 32768 ==> rom@[i] == (Instruction { raw: 0 }),
{
    let blank = Instruction { raw: 0 };
    let mut rom = [blank; 32768];
    let mut i: usize = 0;
    while i < 32768
        invariant
            i <= 32768,
            blank.raw == 0,
            forall|k: int| 0 <= k < i ==> rom@[k] == blank,
        decreases 32768 - i,
    {
        rom[i] = blank;
        i += 1;
    }
    rom
}

/// The Hack computer: registers, data memory, instruction memory, and the
/// breakpoints of the session that owns it.
pub struct Hardware {
    /// The address register.
    pub a: Word,
    /// The data register.
    pub d: Word,
    /// The program counter.
    pub pc: Word,
    pub ram: RAM,
    pub rom: [Instruction; 32768],
    /// Survive a reset and the loading of another program.
    pub breakpoints: Vec<Breakpoint>,
}

impl View for Hardware {
    type V = Machine;

    open spec fn view(&self) -> Machine {
        Machine { a: self.a, d: self.d, pc: self.pc, ram: self.ram@, rom: self.rom@ }
    }
}

impl Hardware {
    /// A machine with empty memories and no breakpoints.
    pub fn new() -> (hardware: Hardware)
        ensures
            hardware@ == (Machine { a: 0, d: 0, pc: 0, ram: Seq::new(32768, |i: int| 0i16), rom: rom_of(Seq::empty()) }),
            hardware.breakpoints@ == Seq::<Breakpoint>::empty(),
    {
        let hardware = Hardware {
            a: 0,
            d: 0,
            pc: 0,
            ram: RAM::new(),
            rom: blank_rom(),
            breakpoints: Vec::new(),
        };
        assert(hardware.rom@ =~= rom_of(Seq::empty()));
        hardware
    }

    /// A machine that holds `program`, in its initial state and without
    /// breakpoints.
    pub fn with_program(program: Vec<Instruction>) -> (result: Result<Hardware, LoadError>)
        ensures
            program.len() > ROM_SIZE ==> result == Err::<Hardware, LoadError>(LoadError::ProgramTooLong),
            program.len() <= ROM_SIZE ==> result is Ok && result->Ok_0@ == fresh(program@)
                && result->Ok_0.breakpoints@ == Seq::<Breakpoint>::empty(),
    {
        let mut hardware = Hardware::new();
        match hardware.load_program(program) {
            Ok(()) => Ok(hardware),
            Err(error) => Err(error),
        }
    }

    /// Puts `program` into the instruction memory and resets the machine.
    /// A program that does not fit is refused, and the machine stays as it was.
    pub fn load_program(&mut self, program: Vec<Instruction>) -> (result: Result<(), LoadError>)
        ensures
            final(self).breakpoints == old(self).breakpoints,
            program.len() <= ROM_SIZE ==> result == Ok::<(), LoadError>(()) && final(self)@ == (Machine {
                rom: rom_of(program@),
                ..old(self)@
            }).reset(),
            program.len() > ROM_SIZE ==> result == Err::<(), LoadError>(LoadError::ProgramTooLong)
                && *final(self) == *old(self),
    {
        if program.len() > ROM_SIZE {
            return Err(LoadError::ProgramTooLong);
        }
        let mut rom = blank_rom();
        let mut i: usize = 0;
        while i < program.len()
            invariant
                i <= program.len() <= ROM_SIZE,
                forall|k: int| 0 <= k < i ==> rom@[k] == program@[k],
                forall|k: int| i <= k < 32768 ==> rom@[k] == (Instruction { raw: 0 }),
            decreases program.len() - i,
        {
            rom[i] = program[i];
            i += 1;
        }
        assert(rom@ =~= rom_of(program@));
        self.rom = rom;
        self.reset();
        Ok(())
    }

    /// Returns the machine to its initial state: registers and program
    /// counter zero, data memory cleared. The program and the breakpoints stay.
    pub fn reset(&mut self)
        ensures
            final(self)@ == old(self)@.reset(),
            final(self).breakpoints == old(self).breakpoints,
    {
        self.a = 0;
        self.d = 0;
        self.pc = 0;
        self.ram.clear();
    }

    /// Whether the next instruction cannot be executed.
    pub fn is_stuck(&self) -> (stuck: bool)
        ensures
            stuck == self@.stuck(),
    {
        if self.pc < 0 {
            return true;
        }
        match self.rom[self.pc as usize].decode() {
            Decoded::Address { .. } => false,
            Decoded::Compute { use_memory, dest, .. } => (use_memory || dest.m) && self.a < 0,
        }
    }

    /// Executes one instruction and tells whether that was a halt.
    pub fn step(&mut self) -> (halted: bool)
        ensures
            final(self)@ == old(self)@.step(),
            halted == old(self)@.halts(),
            final(self).breakpoints == old(self).breakpoints,
    {
        if self.pc < 0 {
            return true;
        }
        let pc = self.pc;
        match self.rom[pc as usize].decode() {
            Decoded::Address { value } => {
                self.a = value as Word;
                self.pc = pc.wrapping_add(1);
                false
            },
            Decoded::Compute { use_memory, function, dest, jump, .. } => {
                if (use_memory || dest.m) && self.a < 0 {
                    return true;
                }
                let operand = if use_memory { self.ram.get(self.a) } else { self.a };
                let out = alu(function, self.d, operand);
                let mut kept = true;
                if dest.m {
                    kept = self.a == KEYBOARD || self.ram.get(self.a) == out.value;
                    self.ram.set(self.a, out.value);
                }
                let a = self.a;
                if dest.a {
                    self.a = out.value;
                }
                if dest.d {
                    kept = kept && self.d == out.value;
                    self.d = out.value;
                }
                if jump.holds(out.value) {
                    self.pc = self.a;
                } else {
                    self.pc = pc.wrapping_add(1);
                }
                proof {
                    assert(kept == (self.ram@ == old(self).ram@ && self.d == old(self).d)) by {
                        if kept {
                            assert(self.ram@ =~= old(self).ram@);
                        } else if self.d == old(self).d {
                            assert(self.ram@[a as int] != old(self).ram@[a as int]);
                        }
                    }
                }
                jump.code() == 7 && kept && self.a == a && self.pc == pc
            },
        }
    }

    /// Whether `breakpoint` matches the machine's state.
    pub fn hits(&self, breakpoint: &Breakpoint) -> (hit: bool)
        ensures
            hit == self@.hits(*breakpoint),
    {
        match breakpoint.var {
            BreakpointVar::A => self.a == breakpoint.value,
            BreakpointVar::D => self.d == breakpoint.value,
            BreakpointVar::PC => self.pc == breakpoint.value,
            BreakpointVar::RAM(address) => 0 <= address && self.ram.get(address) == breakpoint.value,
        }
    }

    /// Whether any breakpoint matches the machine's state.
    pub fn at_breakpoint(&self) -> (hit: bool)
        ensures
            hit == self@.hits_any(self.breakpoints@),
    {
        let mut i: usize = 0;
        while i < self.breakpoints.len()
            invariant
                i <= self.breakpoints.len(),
                forall|k: int| 0 <= k < i ==> !self@.hits(#[trigger] self.breakpoints@[k]),
            decreases self.breakpoints.len() - i,
        {
            if self.hits(&self.breakpoints[i]) {
                return true;
            }
            i += 1;
        }
        false
    }

    /// Executes up to `step_count` instructions. Stops early, and returns
    /// `true`, when a step reports a halt or a breakpoint matches the state
    /// that a step has led to.
    pub fn run(&mut self, step_count: u64) -> (halted: bool)
        ensures
            (final(self)@, halted) == old(self)@.run(old(self).breakpoints@, step_count as nat),
            final(self).breakpoints == old(self).breakpoints,
    {
        let mut done: u64 = 0;
        while done < step_count
            invariant
                done <= step_count,
                self.breakpoints == old(self).breakpoints,
                old(self)@.run(old(self).breakpoints@, step_count as nat) == self@.run(
                    self.breakpoints@,
                    (step_count - done) as nat,
                ),
            decreases step_count - done,
        {
            let halted = self.step();
            if halted || self.at_breakpoint() {
                return true;
            }
            done += 1;
        }
        false
    }

    /// Registers a breakpoint.
    pub fn add_breakpoint(&mut self, breakpoint: Breakpoint)
        ensures
            final(self)@ == old(self)@,
            final(self).breakpoints@ == old(self).breakpoints@.push(breakpoint),
    {
        self.breakpoints.push(breakpoint);
    }

    /// Removes the breakpoint at position `index` and returns it; `None`,
    /// and no change, if there is none at that position.
    pub fn remove_breakpoint(&mut self, index: usize) -> (removed: Option<Breakpoint>)
        ensures
            final(self)@ == old(self)@,
            index < old(self).breakpoints.len() ==> removed == Some(old(self).breakpoints@[index as int])
                && final(self).breakpoints@ == old(self).breakpoints@.remove(index as int),
            index >= old(self).breakpoints.len() ==> removed.is_none() && final(self).breakpoints
                == old(self).breakpoints,
    {
        if index < self.breakpoints.len() {
            Some(self.breakpoints.remove(index))
        } else {
            None
        }
    }
}

} // verus!
