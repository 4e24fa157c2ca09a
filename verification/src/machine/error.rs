//! Errors of evaluation.

use vstd::prelude::*;

use crate::cost_model::ex_budget::ExBudget;

verus! {

/// Why evaluation stopped with an error.
#[derive(Debug, Clone, Copy, PartialEq, Eq, Structural)]
pub enum MachineError {
    /// The error term was evaluated.
    ExplicitErrorTerm,
    /// A value that is not a function was applied.
    NonFunctionApplication,
    /// A built-in expected a constant.
    NotAConstant,
    /// A variable with this index is not bound.
    OpenTermEvaluated(usize),
    /// The budget ran out; the budget left, below zero.
    OutOfExError(ExBudget),
    /// A built-in that expected a force received an argument.
    UnexpectedBuiltinTermArgument,
    /// A value that is neither delayed nor a polymorphic built-in was forced.
    NonPolymorphicInstantiation,
    /// A built-in that expected an argument was forced.
    BuiltinTermArgumentExpected,
    /// A case analysis on a value that it cannot branch on.
    NonConstrScrutinized,
    /// A case analysis without a branch for this tag.
    MissingCaseBranch(usize),
    /// A built-in failed.
    Runtime(RuntimeError),
    /// A built-in whose evaluation is not implemented was called.
    UnimplementedBuiltin,
}

/// Why a built-in failed.
#[derive(Debug, Clone, Copy, PartialEq, Eq, Structural)]
pub enum RuntimeError {
    ByteStringOutOfBounds,
    TypeMismatch,
    ExpectedPair,
    ExpectedList,
    NotData,
    MalFormedData,
    EmptyList,
    UnexpectedEd25519PublicKeyLength,
    UnexpectedEd25519SignatureLength,
    DivisionByZero,
    MkConsTypeMismatch,
    ByteStringConsNotAByte,
    DecodeUtf8,
    Secp256k1,
    /// `expModInteger` was given a modulus below 1.
    ExpModIntegerInvalidModulus,
    /// `expModInteger` was asked for a negative power of a number that has
    /// no inverse modulo the modulus.
    ExpModIntegerNotInvertible,
    ExpectedArray,
    IndexArrayOutOfBounds,
    ReadBitOutOfBounds,
    WriteBitsOutOfBounds,
    OutsideByteBounds,
    ReplicateByteNegativeSize,
    ReplicateByteSizeTooBig,
    IntegerToByteStringNegativeSize,
    IntegerToByteStringSizeTooBig,
    IntegerToByteStringNegativeInput,
    IntegerToByteStringSizeTooSmall,
}

} // verus!
