//! A small compiler toolchain for the Zinc language: the syntax tree, the
//! grammar and a parser for it, the table of built-in functions, a
//! tree-walking interpreter, and the lowering of a program to the commands
//! that build its basic blocks in a code module.

use vstd::prelude::*;
use vstd::string::StringSliceAdditionalSpecFns;

pub mod buildfunc;
pub mod buildnode;
pub mod echo;
pub mod grammar;
pub mod interpreter;
pub mod node;
pub mod parse;
pub mod stdlib;
pub mod text;

verus! {

/// Why a source text could not be run to its end.
#[derive(Debug)]
pub enum RunError {
    /// The text is no program.
    Parse(grammar::ParseError),
    /// The program stopped with a fault.
    Runtime(interpreter::RuntimeResult),
}

/// Parses a source text and interprets the program: what it wrote, or why
/// there is no output.
pub fn run_interpreter(code: &str) -> (r: Result<String, RunError>)
    ensures
        match grammar::program(code.spec_bytes()) {
            Err(e) => r matches Err(RunError::Parse(x)) && x == e,
            Ok(model) => match interpreter::run_program(model, interpreter::STEP_LIMIT as nat) {
                Err(fault) => r matches Err(RunError::Runtime(x)) && x@ == fault,
                Ok(output) => r matches Ok(text) && interpreter::text_agrees(text@, output),
            },
        },
{
    match parse::parse(code) {
        Err(e) => Err(RunError::Parse(e)),
        Ok(file_description) => match interpreter::interpret(file_description) {
            Err(e) => Err(RunError::Runtime(e)),
            Ok(text) => Ok(text),
        },
    }
}

} // verus!
