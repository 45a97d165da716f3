//! A small stack-based bytecode virtual machine.
//!
//! The crate loads a self-contained binary artifact (header, constant pool,
//! top-level program bytecode) and executes it over an operand stack of
//! 32-bit signed integers, a globals vector, and a call stack of activation
//! records.  All observable output (`PRINT`, diagnostic dumps, `HALT`) is
//! collected in an event log so that callers decide how to render it.

use vstd::prelude::*;

pub mod constants;
pub mod error;
pub mod header;
pub mod instructions;
pub mod interpreter;
pub mod raptor_object;
pub mod runtime;
pub mod utils;

verus! {

/// Runtime configuration handed to the [`runtime::Runtime`]: whether to run
/// with per-instruction diagnostics enabled, and the path of the input file.
#[derive(Debug)]
pub struct Options {
    pub debug: bool,
    pub input: String,
}

} // verus!
