//! The instruction table: the opcode set and its byte encoding.
//!
//! The byte values chosen here are the stable enumeration of this
//! implementation: `NOP` is `0x00` and the remaining opcodes follow in the
//! order of the table below.
//!
//! | instruction | byte | | instruction | byte |
//! |---|---|---|---|---|
//! | `NOP` | `0x00` | | `COMP_GT` | `0x11` |
//! | `HALT` | `0x01` | | `RELJUMP` | `0x12` |
//! | `ICONST` | `0x02` | | `RELJUMP_LT` | `0x13` |
//! | `POP` | `0x03` | | `RELJUMP_EQ` | `0x14` |
//! | `ADD` | `0x04` | | `RELJUMP_GT` | `0x15` |
//! | `SUB` | `0x05` | | `STORE` | `0x16` |
//! | `MULTIPLY` | `0x06` | | `LOAD` | `0x17` |
//! | `DIVIDE` | `0x07` | | `CALL` | `0x18` |
//! | `MODULUS` | `0x08` | | `RETURN` | `0x19` |
//! | `SHL` | `0x09` | | `PRINT` | `0x1A` |
//! | `SHR` | `0x0A` | | `DUMP_STACK` | `0x1B` |
//! | `AND` | `0x0B` | | `DUMP_GLOBALS` | `0x1C` |
//! | `OR` | `0x0C` | | | |
//! | `NOT` | `0x0D` | | | |
//! | `COMP` | `0x0E` | | | |
//! | `COMP_LT` | `0x0F` | | | |
//! | `COMP_EQ` | `0x10` | | | |
//!
//! `SHL` shifts left and `SHR` shifts right (an arithmetic right shift, as
//! the operands are signed); the shift amount is the right operand's value
//! modulo 32, taken from its low five bits.

use vstd::prelude::*;

verus! {

/// One opcode of the virtual machine.
#[derive(Clone, Copy, Debug, PartialEq, Eq, Structural)]
pub enum Instruction {
    Nop,
    Halt,
    IConst,
    Pop,
    Add,
    Sub,
    Multiply,
    Divide,
    Modulus,
    Shl,
    Shr,
    And,
    Or,
    Not,
    Comp,
    CompLt,
    CompEq,
    CompGt,
    RelJump,
    RelJumpLt,
    RelJumpEq,
    RelJumpGt,
    Store,
    Load,
    Call,
    Return,
    Print,
    DumpStack,
    DumpGlobals,
}

/// The byte encoding of the instruction set: which instruction, if any, a
/// given opcode byte denotes.
pub open spec fn spec_instruction_of(b: u8) -> Option<Instruction> {
    match b {
        0x00u8 => Some(Instruction::Nop),
        0x01u8 => Some(Instruction::Halt),
        0x02u8 => Some(Instruction::IConst),
        0x03u8 => Some(Instruction::Pop),
        0x04u8 => Some(Instruction::Add),
        0x05u8 => Some(Instruction::Sub),
        0x06u8 => Some(Instruction::Multiply),
        0x07u8 => Some(Instruction::Divide),
        0x08u8 => Some(Instruction::Modulus),
        0x09u8 => Some(Instruction::Shl),
        0x0Au8 => Some(Instruction::Shr),
        0x0Bu8 => Some(Instruction::And),
        0x0Cu8 => Some(Instruction::Or),
        0x0Du8 => Some(Instruction::Not),
        0x0Eu8 => Some(Instruction::Comp),
        0x0Fu8 => Some(Instruction::CompLt),
        0x10u8 => Some(Instruction::CompEq),
        0x11u8 => Some(Instruction::CompGt),
        0x12u8 => Some(Instruction::RelJump),
        0x13u8 => Some(Instruction::RelJumpLt),
        0x14u8 => Some(Instruction::RelJumpEq),
        0x15u8 => Some(Instruction::RelJumpGt),
        0x16u8 => Some(Instruction::Store),
        0x17u8 => Some(Instruction::Load),
        0x18u8 => Some(Instruction::Call),
        0x19u8 => Some(Instruction::Return),
        0x1Au8 => Some(Instruction::Print),
        0x1Bu8 => Some(Instruction::DumpStack),
        0x1Cu8 => Some(Instruction::DumpGlobals),
        _ => None,
    }
}

impl Instruction {
    /// Decode one opcode byte; `None` for a byte outside the table.
    pub fn from_u8(b: u8) -> (r: Option<Instruction>)
        ensures
            r == spec_instruction_of(b),
    {
        match b {
            0x00u8 => Some(Instruction::Nop),
            0x01u8 => Some(Instruction::Halt),
            0x02u8 => Some(Instruction::IConst),
            0x03u8 => Some(Instruction::Pop),
            0x04u8 => Some(Instruction::Add),
            0x05u8 => Some(Instruction::Sub),
            0x06u8 => Some(Instruction::Multiply),
            0x07u8 => Some(Instruction::Divide),
            0x08u8 => Some(Instruction::Modulus),
            0x09u8 => Some(Instruction::Shl),
            0x0Au8 => Some(Instruction::Shr),
            0x0Bu8 => Some(Instruction::And),
            0x0Cu8 => Some(Instruction::Or),
            0x0Du8 => Some(Instruction::Not),
            0x0Eu8 => Some(Instruction::Comp),
            0x0Fu8 => Some(Instruction::CompLt),
            0x10u8 => Some(Instruction::CompEq),
            0x11u8 => Some(Instruction::CompGt),
            0x12u8 => Some(Instruction::RelJump),
            0x13u8 => Some(Instruction::RelJumpLt),
            0x14u8 => Some(Instruction::RelJumpEq),
            0x15u8 => Some(Instruction::RelJumpGt),
            0x16u8 => Some(Instruction::Store),
            0x17u8 => Some(Instruction::Load),
            0x18u8 => Some(Instruction::Call),
            0x19u8 => Some(Instruction::Return),
            0x1Au8 => Some(Instruction::Print),
            0x1Bu8 => Some(Instruction::DumpStack),
            0x1Cu8 => Some(Instruction::DumpGlobals),
            _ => None,
        }
    }
}

} // verus!
