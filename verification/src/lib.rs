//! An emulator for the 16-bit Hack computer: its instruction set, memory
//! and processor, the assembler that produces its programs, the stack-machine
//! translator above it, and the stepping contract of its debugger.

pub mod assembler;
pub mod binary;
pub mod emulator;
pub mod error;
pub mod hardware;
pub mod text;
pub mod vm;
