//! The fatal error kinds of the virtual machine.

use vstd::prelude::*;

verus! {

/// A fatal condition: loading or execution stops and the caller reports the
/// error with a non-zero exit status.
///
/// Non-fatal conditions (an unknown opcode, a redundant or zero-offset
/// relative jump) are not errors: the machine skips over them and continues.
#[derive(Clone, Copy, Debug, PartialEq, Eq, Structural)]
pub enum VmError {
    /// The input holds fewer than the eight header bytes.
    BadHeaderSize,
    /// The first four header bytes are not the expected magic number.
    BadMagic,
    /// The constant pool ran past the end of the input while an entry's
    /// operands were still expected.
    TruncatedConstants,
    /// A value was required from an empty operand stack.
    StackUnderflow,
    /// `STORE` or `LOAD` in a function frame addressed an index outside the
    /// frame's locals.
    BadLocalIndex,
    /// `STORE` or `LOAD` in the top-level program frame addressed an index
    /// outside the globals vector.
    BadGlobalIndex,
    /// `CALL` named a function id absent from the constant table.
    BadFunctionId,
    /// `DIV` or `MOD` with a zero divisor.
    DivisionByZero,
}

} // verus!
