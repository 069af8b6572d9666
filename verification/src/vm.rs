//! The stack machine above the Hack computer: its commands, the linking of
//! files into one program, and the translation of a program into
//! instructions.

pub mod code;
pub mod command;
pub mod effect;
pub mod listing;
pub mod names;
pub mod parser;
pub mod program;
pub mod round_trip;
pub mod run_state;
pub mod translator;

pub use command::{Arithmetic, Command, Segment};
pub use program::{File, Linked, Program};
pub use run_state::RunState;
pub use translator::{translate, LinkError, Translation};
