//! The bytecode form of programs: opcodes, little-endian operand access,
//! and the compiler from terms.

pub mod compiler;

use vstd::prelude::*;

verus! {

/// Opcodes of the bytecode machine; operands follow each opcode inline.
#[derive(Debug, Copy, Clone, PartialEq, Eq, Structural)]
pub enum Op {
    Var,
    Lambda,
    Apply,
    Delay,
    Force,
    Constr,
    Case,
    Const,
    Builtin,
    Error,
    ConstrBig,
    VarBig,
    ForceDelay,
    ApplyLambda,
    ForceBuiltin,
    Force2Builtin,
    ApplyVar,
    ForceVar,
    Apply2,
    Apply3,
    ConstUnit,
    ConstTrue,
    ConstFalse,
    ConstSmallInt,
}

impl Op {
    /// The byte that stands for this opcode.
    pub open spec fn spec_byte(self) -> u8 {
        match self {
            Op::Var => 0x01,
            Op::Lambda => 0x02,
            Op::Apply => 0x03,
            Op::Delay => 0x04,
            Op::Force => 0x05,
            Op::Constr => 0x06,
            Op::Case => 0x07,
            Op::Const => 0x08,
            Op::Builtin => 0x09,
            Op::Error => 0x0A,
            Op::ConstrBig => 0x0B,
            Op::VarBig => 0x0C,
            Op::ForceDelay => 0x10,
            Op::ApplyLambda => 0x11,
            Op::ForceBuiltin => 0x12,
            Op::Force2Builtin => 0x13,
            Op::ApplyVar => 0x14,
            Op::ForceVar => 0x15,
            Op::Apply2 => 0x16,
            Op::Apply3 => 0x17,
            Op::ConstUnit => 0x20,
            Op::ConstTrue => 0x21,
            Op::ConstFalse => 0x22,
            Op::ConstSmallInt => 0x23,
        }
    }

    /// The byte that stands for this opcode.
    pub fn byte(&self) -> (r: u8)
        ensures
            r == self.spec_byte(),
    {
        match self {
            Op::Var => 0x01,
            Op::Lambda => 0x02,
            Op::Apply => 0x03,
            Op::Delay => 0x04,
            Op::Force => 0x05,
            Op::Constr => 0x06,
            Op::Case => 0x07,
            Op::Const => 0x08,
            Op::Builtin => 0x09,
            Op::Error => 0x0A,
            Op::ConstrBig => 0x0B,
            Op::VarBig => 0x0C,
            Op::ForceDelay => 0x10,
            Op::ApplyLambda => 0x11,
            Op::ForceBuiltin => 0x12,
            Op::Force2Builtin => 0x13,
            Op::ApplyVar => 0x14,
            Op::ForceVar => 0x15,
            Op::Apply2 => 0x16,
            Op::Apply3 => 0x17,
            Op::ConstUnit => 0x20,
            Op::ConstTrue => 0x21,
            Op::ConstFalse => 0x22,
            Op::ConstSmallInt => 0x23,
        }
    }
}

/// The little-endian value of the 4 bytes of `b` from `offset`.
pub open spec fn le_u32(b: Seq<u8>, offset: int) -> int {
    b[offset] + b[offset + 1] * 256 + b[offset + 2] * 65536 + b[offset + 3] * 16777216
}

/// Reads a `u32` stored little-endian at `offset`.
pub fn read_u32(bytecode: &[u8], offset: usize) -> (r: u32)
    requires
        offset + 4 <= bytecode@.len(),
    ensures
        r == le_u32(bytecode@, offset as int),
{
    bytecode[offset] as u32 + (bytecode[offset + 1] as u32) * 256 + (bytecode[offset + 2] as u32)
        * 65536 + (bytecode[offset + 3] as u32) * 16777216
}

/// Reads a `u16` stored little-endian at `offset`.
pub fn read_u16(bytecode: &[u8], offset: usize) -> (r: u16)
    requires
        offset + 2 <= bytecode@.len(),
    ensures
        r == bytecode@[offset as int] + bytecode@[offset + 1] * 256,
{
    bytecode[offset] as u16 + (bytecode[offset + 1] as u16) * 256
}

/// Writes `value` little-endian into the 4 bytes at `offset`.
pub fn write_u32(bytecode: &mut [u8], offset: usize, value: u32)
    requires
        offset + 4 <= old(bytecode)@.len(),
    ensures
        final(bytecode)@.len() == old(bytecode)@.len(),
        final(bytecode)@[offset as int] == value % 256,
        final(bytecode)@[offset + 1] == (value / 256) % 256,
        final(bytecode)@[offset + 2] == (value / 65536) % 256,
        final(bytecode)@[offset + 3] == value / 16777216,
        forall|i: int|
            0 <= i < old(bytecode)@.len() && !(offset <= i < offset + 4) ==> final(bytecode)@[i]
                == old(bytecode)@[i],
{
    bytecode[offset] = (value % 256) as u8;
    bytecode[offset + 1] = ((value / 256) % 256) as u8;
    bytecode[offset + 2] = ((value / 65536) % 256) as u8;
    bytecode[offset + 3] = (value / 16777216) as u8;
}

/// Reading back what [`write_u32`] wrote gives the value written.
pub proof fn lemma_write_then_read_u32(b: Seq<u8>, offset: int, value: u32)
    requires
        0 <= offset,
        offset + 4 <= b.len(),
        b[offset] == value % 256,
        b[offset + 1] == (value / 256) % 256,
        b[offset + 2] == (value / 65536) % 256,
        b[offset + 3] == value / 16777216,
    ensures
        le_u32(b, offset) == value,
{
}

} // verus!
