//! The command-line choices, as plain data.

use vstd::prelude::*;

verus! {

/// Which program to run: a built-in program's name, or a path to a
/// program file.
pub enum ProgramArg {
    BuiltInProgram(String),
    ProgramFile(String),
}

/// The parsed command line: the window magnification factor and the
/// program choice.
pub struct Args {
    pub window_scale: u32,
    pub program: ProgramArg,
}

} // verus!
