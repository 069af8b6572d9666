//! Machines made from program texts.

use vstd::prelude::*;
use vstd::string::StringSliceAdditionalSpecFns;
use super::breakpoint::Breakpoint;
use super::cpu::{fresh, Hardware};
use crate::assembler;
use crate::binary;
use crate::error::LoadError;

verus! {

impl Hardware {
    /// A machine that holds the program which `contents` writes as lines of
    /// sixteen binary digits.
    pub fn from_file_contents(contents: &str) -> (result: Result<Hardware, LoadError>)
        ensures
            match binary::parse_spec(contents.spec_bytes()) {
                Ok(program) => result is Ok && result->Ok_0@ == fresh(program)
                    && result->Ok_0.breakpoints@ == Seq::<Breakpoint>::empty(),
                Err(error) => result == Err::<Hardware, LoadError>(error),
            },
    {
        match binary::parse(contents.as_bytes()) {
            Ok(program) => Hardware::with_program(program),
            Err(error) => Err(error),
        }
    }

    /// A machine that holds the program which the Hack assembly text
    /// `contents` stands for.
    pub fn from_hack_file_contents(contents: &str) -> (result: Result<Hardware, LoadError>)
        ensures
            match assembler::assemble_spec(contents.spec_bytes()) {
                Ok(program) => result is Ok && result->Ok_0@ == fresh(program)
                    && result->Ok_0.breakpoints@ == Seq::<Breakpoint>::empty(),
                Err(error) => result == Err::<Hardware, LoadError>(error),
            },
    {
        match assembler::assemble(contents.as_bytes()) {
            Ok(program) => Hardware::with_program(program),
            Err(error) => Err(error),
        }
    }
}

} // verus!
