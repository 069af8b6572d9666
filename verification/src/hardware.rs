//! The Hack machine: words, instructions, the ALU, memory and the processor.

pub mod alu;
pub mod breakpoint;
pub mod cpu;
pub mod instruction;
pub mod loader;
pub mod ram;

pub use alu::{alu, alu_spec, wrap16, AluOutput, Operation};
pub use breakpoint::{Breakpoint, BreakpointVar};
pub use cpu::{fresh, rom_of, Hardware, Machine, ROM_SIZE};
pub use instruction::{decode_word, Decoded, Destinations, Instruction, Jump, UWord, Word};
pub use ram::{store_spec, KEYBOARD, RAM, RAM_SIZE, SCREEN, SCREEN_ROWS, SCREEN_ROW_LENGTH};
