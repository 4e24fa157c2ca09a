//! Built-in functions of the language, with their arity, the number of
//! forces they take, their Flat tag and the ledger versions that offer them.

use vstd::prelude::*;

verus! {

/// The Plutus ledger language a script is evaluated under.
#[derive(Debug, Copy, Clone, PartialEq, Eq, Structural)]
pub enum PlutusVersion {
    V1,
    V2,
    V3,
}

/// Which behaviour variant of the built-ins applies.
#[derive(Debug, Copy, Clone, PartialEq, Eq, Structural)]
pub enum BuiltinSemantics {
    V1,
    V2,
}

impl BuiltinSemantics {
    /// Plutus V1 and V2 use the first variant, Plutus V3 the second.
    pub fn from_version(v: &PlutusVersion) -> (r: BuiltinSemantics)
        ensures
            r == (if *v == PlutusVersion::V3 { BuiltinSemantics::V2 } else { BuiltinSemantics::V1 }),
    {
        match v {
            PlutusVersion::V1 => BuiltinSemantics::V1,
            PlutusVersion::V2 => BuiltinSemantics::V1,
            PlutusVersion::V3 => BuiltinSemantics::V2,
        }
    }
}

/// All built-in functions of the language.
#[allow(non_camel_case_types)]
#[derive(Debug, Copy, Clone, PartialEq, Eq, Structural)]
pub enum DefaultFunction {
    /// Adds two integers.
    AddInteger,
    /// Subtracts the second integer from the first.
    SubtractInteger,
    /// Multiplies two integers.
    MultiplyInteger,
    /// Truncated division (rounds towards negative infinity).
    DivideInteger,
    /// Truncated quotient (rounds towards zero).
    QuotientInteger,
    /// Remainder after [`QuotientInteger`](Self::QuotientInteger).
    RemainderInteger,
    /// Modulo after [`DivideInteger`](Self::DivideInteger).
    ModInteger,
    /// Tests two integers for equality.
    EqualsInteger,
    /// Returns `true` if the first integer is strictly less than the second.
    LessThanInteger,
    /// Returns `true` if the first integer is less than or equal to the second.
    LessThanEqualsInteger,
    /// Concatenates two byte strings.
    AppendByteString,
    /// Prepends a byte (given as an integer 0–255) to a byte string.
    ConsByteString,
    /// Extracts a sub-byte-string by offset and length.
    SliceByteString,
    /// Returns the length of a byte string.
    LengthOfByteString,
    /// Returns the byte at a given index.
    IndexByteString,
    /// Tests two byte strings for equality.
    EqualsByteString,
    /// Lexicographic less-than on byte strings.
    LessThanByteString,
    /// Lexicographic less-than-or-equal on byte strings.
    LessThanEqualsByteString,
    /// SHA-256 hash of a byte string.
    Sha2_256,
    /// SHA3-256 hash of a byte string.
    Sha3_256,
    /// Blake2b-256 hash of a byte string.
    Blake2b_256,
    /// Verifies an Ed25519 signature given `(public_key, message, signature)`.
    VerifyEd25519Signature,
    /// Concatenates two UTF-8 strings.
    AppendString,
    /// Tests two strings for equality.
    EqualsString,
    /// Encodes a string to a byte string (UTF-8).
    EncodeUtf8,
    /// Decodes a byte string to a string (UTF-8); errors on invalid bytes.
    DecodeUtf8,
    /// Polymorphic conditional; forces the chosen branch.
    IfThenElse,
    /// Evaluates a unit value and returns the provided second argument.
    ChooseUnit,
    /// Logs a trace message and returns the second argument unchanged.
    Trace,
    /// Returns the first element of a pair.
    FstPair,
    /// Returns the second element of a pair.
    SndPair,
    /// Pattern-matches a list, selecting the nil or cons branch.
    ChooseList,
    /// Prepends an element to a typed list.
    MkCons,
    /// Returns the first element of a non-empty list.
    HeadList,
    /// Returns the list without its first element.
    TailList,
    /// Returns `true` if the list is empty.
    NullList,
    /// Pattern-matches a `Data` value across all five constructors.
    ChooseData,
    /// Constructs a `Data` constr value from a tag and a list of fields.
    ConstrData,
    /// Lifts a map of `Data` values into a `Data` map.
    MapData,
    /// Lifts a list of `Data` values into `Data`.
    ListData,
    /// Lifts an integer into `Data`.
    IData,
    /// Lifts a byte string into `Data`.
    BData,
    /// Deconstructs a `Data` constr into `(tag, fields)`.
    UnConstrData,
    /// Extracts the map from a `Data` map value.
    UnMapData,
    /// Extracts the list from a `Data` list value.
    UnListData,
    /// Extracts the integer from a `Data` integer value.
    UnIData,
    /// Extracts the byte string from a `Data` byte-string value.
    UnBData,
    /// Tests two `Data` values for structural equality.
    EqualsData,
    /// Constructs a `Data` pair.
    MkPairData,
    /// Constructs an empty `Data` list.
    MkNilData,
    /// Constructs an empty `Data` map (list of pairs).
    MkNilPairData,
    /// CBOR-serialises a `Data` value to a byte string.
    SerialiseData,
    /// Verifies an ECDSA secp256k1 signature given `(public_key, message, signature)`.
    VerifyEcdsaSecp256k1Signature,
    /// Verifies a Schnorr secp256k1 signature given `(public_key, message, signature)`.
    VerifySchnorrSecp256k1Signature,
    /// Point addition in BLS12-381 G1.
    Bls12_381_G1_Add,
    /// Point negation in BLS12-381 G1.
    Bls12_381_G1_Neg,
    /// Scalar multiplication in BLS12-381 G1.
    Bls12_381_G1_ScalarMul,
    /// Equality test for BLS12-381 G1 points.
    Bls12_381_G1_Equal,
    /// Compresses a BLS12-381 G1 point to 48 bytes.
    Bls12_381_G1_Compress,
    /// Decompresses 48 bytes into a BLS12-381 G1 point.
    Bls12_381_G1_Uncompress,
    /// Hashes a byte string to a BLS12-381 G1 point using a domain-separation tag.
    Bls12_381_G1_HashToGroup,
    /// Point addition in BLS12-381 G2.
    Bls12_381_G2_Add,
    /// Point negation in BLS12-381 G2.
    Bls12_381_G2_Neg,
    /// Scalar multiplication in BLS12-381 G2.
    Bls12_381_G2_ScalarMul,
    /// Equality test for BLS12-381 G2 points.
    Bls12_381_G2_Equal,
    /// Compresses a BLS12-381 G2 point to 96 bytes.
    Bls12_381_G2_Compress,
    /// Decompresses 96 bytes into a BLS12-381 G2 point.
    Bls12_381_G2_Uncompress,
    /// Hashes a byte string to a BLS12-381 G2 point using a domain-separation tag.
    Bls12_381_G2_HashToGroup,
    /// Computes the BLS12-381 Miller loop (G1 × G2 → GT).
    Bls12_381_MillerLoop,
    /// Multiplies two BLS12-381 GT (Miller-loop result) elements.
    Bls12_381_MulMlResult,
    /// Checks equality of two BLS12-381 pairings (final-exponentiation verify).
    Bls12_381_FinalVerify,
    /// Keccak-256 hash of a byte string (Plutus V3, protocol version ≥ 9).
    Keccak_256,
    /// Blake2b-224 hash of a byte string (Plutus V3, protocol version ≥ 9).
    Blake2b_224,
    /// Converts an integer to a byte string with given endianness and size.
    IntegerToByteString,
    /// Converts a byte string to an integer with given endianness.
    ByteStringToInteger,
    /// Bitwise AND of two byte strings, with a padding-semantics flag.
    AndByteString,
    /// Bitwise OR of two byte strings, with a padding-semantics flag.
    OrByteString,
    /// Bitwise XOR of two byte strings, with a padding-semantics flag.
    XorByteString,
    /// Bitwise complement of a byte string.
    ComplementByteString,
    /// Reads a single bit at the given index.
    ReadBit,
    /// Writes a list of `(index, bit)` pairs into a byte string.
    WriteBits,
    /// Creates a byte string of given length filled with a single byte.
    ReplicateByte,
    /// Logical shift of a byte string by a signed number of bits.
    ShiftByteString,
    /// Rotation of a byte string by a signed number of bits.
    RotateByteString,
    /// Counts the number of set bits (popcount) in a byte string.
    CountSetBits,
    /// Returns the index of the lowest set bit, or -1 if none.
    FindFirstSetBit,
    /// RIPEMD-160 hash of a byte string.
    Ripemd_160,
    /// Modular exponentiation: `base ^ exp mod modulus`.
    ExpModInteger,
    /// Drops the first `n` elements of a list.
    DropList,
    /// Returns the length of an array.
    LengthOfArray,
    /// Converts a list to an array.
    ListToArray,
    /// Returns the element at a given index in an array.
    IndexArray,
}

/// The number of forces a built-in takes before its value arguments.
pub open spec fn spec_force_count(f: DefaultFunction) -> nat {
    match f {
        DefaultFunction::AddInteger => 0,
        DefaultFunction::SubtractInteger => 0,
        DefaultFunction::MultiplyInteger => 0,
        DefaultFunction::DivideInteger => 0,
        DefaultFunction::QuotientInteger => 0,
        DefaultFunction::RemainderInteger => 0,
        DefaultFunction::ModInteger => 0,
        DefaultFunction::EqualsInteger => 0,
        DefaultFunction::LessThanInteger => 0,
        DefaultFunction::LessThanEqualsInteger => 0,
        DefaultFunction::AppendByteString => 0,
        DefaultFunction::ConsByteString => 0,
        DefaultFunction::SliceByteString => 0,
        DefaultFunction::LengthOfByteString => 0,
        DefaultFunction::IndexByteString => 0,
        DefaultFunction::EqualsByteString => 0,
        DefaultFunction::LessThanByteString => 0,
        DefaultFunction::LessThanEqualsByteString => 0,
        DefaultFunction::Sha2_256 => 0,
        DefaultFunction::Sha3_256 => 0,
        DefaultFunction::Blake2b_256 => 0,
        DefaultFunction::VerifyEd25519Signature => 0,
        DefaultFunction::AppendString => 0,
        DefaultFunction::EqualsString => 0,
        DefaultFunction::EncodeUtf8 => 0,
        DefaultFunction::DecodeUtf8 => 0,
        DefaultFunction::IfThenElse => 1,
        DefaultFunction::ChooseUnit => 1,
        DefaultFunction::Trace => 1,
        DefaultFunction::FstPair => 2,
        DefaultFunction::SndPair => 2,
        DefaultFunction::ChooseList => 2,
        DefaultFunction::MkCons => 1,
        DefaultFunction::HeadList => 1,
        DefaultFunction::TailList => 1,
        DefaultFunction::NullList => 1,
        DefaultFunction::ChooseData => 1,
        DefaultFunction::ConstrData => 0,
        DefaultFunction::MapData => 0,
        DefaultFunction::ListData => 0,
        DefaultFunction::IData => 0,
        DefaultFunction::BData => 0,
        DefaultFunction::UnConstrData => 0,
        DefaultFunction::UnMapData => 0,
        DefaultFunction::UnListData => 0,
        DefaultFunction::UnIData => 0,
        DefaultFunction::UnBData => 0,
        DefaultFunction::EqualsData => 0,
        DefaultFunction::MkPairData => 0,
        DefaultFunction::MkNilData => 0,
        DefaultFunction::MkNilPairData => 0,
        DefaultFunction::SerialiseData => 0,
        DefaultFunction::VerifyEcdsaSecp256k1Signature => 0,
        DefaultFunction::VerifySchnorrSecp256k1Signature => 0,
        DefaultFunction::Bls12_381_G1_Add => 0,
        DefaultFunction::Bls12_381_G1_Neg => 0,
        DefaultFunction::Bls12_381_G1_ScalarMul => 0,
        DefaultFunction::Bls12_381_G1_Equal => 0,
        DefaultFunction::Bls12_381_G1_Compress => 0,
        DefaultFunction::Bls12_381_G1_Uncompress => 0,
        DefaultFunction::Bls12_381_G1_HashToGroup => 0,
        DefaultFunction::Bls12_381_G2_Add => 0,
        DefaultFunction::Bls12_381_G2_Neg => 0,
        DefaultFunction::Bls12_381_G2_ScalarMul => 0,
        DefaultFunction::Bls12_381_G2_Equal => 0,
        DefaultFunction::Bls12_381_G2_Compress => 0,
        DefaultFunction::Bls12_381_G2_Uncompress => 0,
        DefaultFunction::Bls12_381_G2_HashToGroup => 0,
        DefaultFunction::Bls12_381_MillerLoop => 0,
        DefaultFunction::Bls12_381_MulMlResult => 0,
        DefaultFunction::Bls12_381_FinalVerify => 0,
        DefaultFunction::Keccak_256 => 0,
        DefaultFunction::Blake2b_224 => 0,
        DefaultFunction::IntegerToByteString => 0,
        DefaultFunction::ByteStringToInteger => 0,
        DefaultFunction::AndByteString => 0,
        DefaultFunction::OrByteString => 0,
        DefaultFunction::XorByteString => 0,
        DefaultFunction::ComplementByteString => 0,
        DefaultFunction::ReadBit => 0,
        DefaultFunction::WriteBits => 0,
        DefaultFunction::ReplicateByte => 0,
        DefaultFunction::ShiftByteString => 0,
        DefaultFunction::RotateByteString => 0,
        DefaultFunction::CountSetBits => 0,
        DefaultFunction::FindFirstSetBit => 0,
        DefaultFunction::Ripemd_160 => 0,
        DefaultFunction::ExpModInteger => 0,
        DefaultFunction::DropList => 1,
        DefaultFunction::LengthOfArray => 1,
        DefaultFunction::ListToArray => 1,
        DefaultFunction::IndexArray => 1,
    }
}

/// The number of value arguments a built-in takes.
pub open spec fn spec_arity(f: DefaultFunction) -> nat {
    match f {
        DefaultFunction::AddInteger => 2,
        DefaultFunction::SubtractInteger => 2,
        DefaultFunction::MultiplyInteger => 2,
        DefaultFunction::DivideInteger => 2,
        DefaultFunction::QuotientInteger => 2,
        DefaultFunction::RemainderInteger => 2,
        DefaultFunction::ModInteger => 2,
        DefaultFunction::EqualsInteger => 2,
        DefaultFunction::LessThanInteger => 2,
        DefaultFunction::LessThanEqualsInteger => 2,
        DefaultFunction::AppendByteString => 2,
        DefaultFunction::ConsByteString => 2,
        DefaultFunction::SliceByteString => 3,
        DefaultFunction::LengthOfByteString => 1,
        DefaultFunction::IndexByteString => 2,
        DefaultFunction::EqualsByteString => 2,
        DefaultFunction::LessThanByteString => 2,
        DefaultFunction::LessThanEqualsByteString => 2,
        DefaultFunction::Sha2_256 => 1,
        DefaultFunction::Sha3_256 => 1,
        DefaultFunction::Blake2b_256 => 1,
        DefaultFunction::VerifyEd25519Signature => 3,
        DefaultFunction::AppendString => 2,
        DefaultFunction::EqualsString => 2,
        DefaultFunction::EncodeUtf8 => 1,
        DefaultFunction::DecodeUtf8 => 1,
        DefaultFunction::IfThenElse => 3,
        DefaultFunction::ChooseUnit => 2,
        DefaultFunction::Trace => 2,
        DefaultFunction::FstPair => 1,
        DefaultFunction::SndPair => 1,
        DefaultFunction::ChooseList => 3,
        DefaultFunction::MkCons => 2,
        DefaultFunction::HeadList => 1,
        DefaultFunction::TailList => 1,
        DefaultFunction::NullList => 1,
        DefaultFunction::ChooseData => 6,
        DefaultFunction::ConstrData => 2,
        DefaultFunction::MapData => 1,
        DefaultFunction::ListData => 1,
        DefaultFunction::IData => 1,
        DefaultFunction::BData => 1,
        DefaultFunction::UnConstrData => 1,
        DefaultFunction::UnMapData => 1,
        DefaultFunction::UnListData => 1,
        DefaultFunction::UnIData => 1,
        DefaultFunction::UnBData => 1,
        DefaultFunction::EqualsData => 2,
        DefaultFunction::MkPairData => 2,
        DefaultFunction::MkNilData => 1,
        DefaultFunction::MkNilPairData => 1,
        DefaultFunction::SerialiseData => 1,
        DefaultFunction::VerifyEcdsaSecp256k1Signature => 3,
        DefaultFunction::VerifySchnorrSecp256k1Signature => 3,
        DefaultFunction::Bls12_381_G1_Add => 2,
        DefaultFunction::Bls12_381_G1_Neg => 1,
        DefaultFunction::Bls12_381_G1_ScalarMul => 2,
        DefaultFunction::Bls12_381_G1_Equal => 2,
        DefaultFunction::Bls12_381_G1_Compress => 1,
        DefaultFunction::Bls12_381_G1_Uncompress => 1,
        DefaultFunction::Bls12_381_G1_HashToGroup => 2,
        DefaultFunction::Bls12_381_G2_Add => 2,
        DefaultFunction::Bls12_381_G2_Neg => 1,
        DefaultFunction::Bls12_381_G2_ScalarMul => 2,
        DefaultFunction::Bls12_381_G2_Equal => 2,
        DefaultFunction::Bls12_381_G2_Compress => 1,
        DefaultFunction::Bls12_381_G2_Uncompress => 1,
        DefaultFunction::Bls12_381_G2_HashToGroup => 2,
        DefaultFunction::Bls12_381_MillerLoop => 2,
        DefaultFunction::Bls12_381_MulMlResult => 2,
        DefaultFunction::Bls12_381_FinalVerify => 2,
        DefaultFunction::Keccak_256 => 1,
        DefaultFunction::Blake2b_224 => 1,
        DefaultFunction::IntegerToByteString => 3,
        DefaultFunction::ByteStringToInteger => 2,
        DefaultFunction::AndByteString => 3,
        DefaultFunction::OrByteString => 3,
        DefaultFunction::XorByteString => 3,
        DefaultFunction::ComplementByteString => 1,
        DefaultFunction::ReadBit => 2,
        DefaultFunction::WriteBits => 3,
        DefaultFunction::ReplicateByte => 2,
        DefaultFunction::ShiftByteString => 2,
        DefaultFunction::RotateByteString => 2,
        DefaultFunction::CountSetBits => 1,
        DefaultFunction::FindFirstSetBit => 1,
        DefaultFunction::Ripemd_160 => 1,
        DefaultFunction::ExpModInteger => 3,
        DefaultFunction::DropList => 2,
        DefaultFunction::LengthOfArray => 1,
        DefaultFunction::ListToArray => 1,
        DefaultFunction::IndexArray => 2,
    }
}

/// The Flat tag of a built-in.
pub open spec fn spec_tag(f: DefaultFunction) -> u8 {
    match f {
        DefaultFunction::AddInteger => 0,
        DefaultFunction::SubtractInteger => 1,
        DefaultFunction::MultiplyInteger => 2,
        DefaultFunction::DivideInteger => 3,
        DefaultFunction::QuotientInteger => 4,
        DefaultFunction::RemainderInteger => 5,
        DefaultFunction::ModInteger => 6,
        DefaultFunction::EqualsInteger => 7,
        DefaultFunction::LessThanInteger => 8,
        DefaultFunction::LessThanEqualsInteger => 9,
        DefaultFunction::AppendByteString => 10,
        DefaultFunction::ConsByteString => 11,
        DefaultFunction::SliceByteString => 12,
        DefaultFunction::LengthOfByteString => 13,
        DefaultFunction::IndexByteString => 14,
        DefaultFunction::EqualsByteString => 15,
        DefaultFunction::LessThanByteString => 16,
        DefaultFunction::LessThanEqualsByteString => 17,
        DefaultFunction::Sha2_256 => 18,
        DefaultFunction::Sha3_256 => 19,
        DefaultFunction::Blake2b_256 => 20,
        DefaultFunction::VerifyEd25519Signature => 21,
        DefaultFunction::AppendString => 22,
        DefaultFunction::EqualsString => 23,
        DefaultFunction::EncodeUtf8 => 24,
        DefaultFunction::DecodeUtf8 => 25,
        DefaultFunction::IfThenElse => 26,
        DefaultFunction::ChooseUnit => 27,
        DefaultFunction::Trace => 28,
        DefaultFunction::FstPair => 29,
        DefaultFunction::SndPair => 30,
        DefaultFunction::ChooseList => 31,
        DefaultFunction::MkCons => 32,
        DefaultFunction::HeadList => 33,
        DefaultFunction::TailList => 34,
        DefaultFunction::NullList => 35,
        DefaultFunction::ChooseData => 36,
        DefaultFunction::ConstrData => 37,
        DefaultFunction::MapData => 38,
        DefaultFunction::ListData => 39,
        DefaultFunction::IData => 40,
        DefaultFunction::BData => 41,
        DefaultFunction::UnConstrData => 42,
        DefaultFunction::UnMapData => 43,
        DefaultFunction::UnListData => 44,
        DefaultFunction::UnIData => 45,
        DefaultFunction::UnBData => 46,
        DefaultFunction::EqualsData => 47,
        DefaultFunction::MkPairData => 48,
        DefaultFunction::MkNilData => 49,
        DefaultFunction::MkNilPairData => 50,
        DefaultFunction::SerialiseData => 51,
        DefaultFunction::VerifyEcdsaSecp256k1Signature => 52,
        DefaultFunction::VerifySchnorrSecp256k1Signature => 53,
        DefaultFunction::Bls12_381_G1_Add => 54,
        DefaultFunction::Bls12_381_G1_Neg => 55,
        DefaultFunction::Bls12_381_G1_ScalarMul => 56,
        DefaultFunction::Bls12_381_G1_Equal => 57,
        DefaultFunction::Bls12_381_G1_Compress => 58,
        DefaultFunction::Bls12_381_G1_Uncompress => 59,
        DefaultFunction::Bls12_381_G1_HashToGroup => 60,
        DefaultFunction::Bls12_381_G2_Add => 61,
        DefaultFunction::Bls12_381_G2_Neg => 62,
        DefaultFunction::Bls12_381_G2_ScalarMul => 63,
        DefaultFunction::Bls12_381_G2_Equal => 64,
        DefaultFunction::Bls12_381_G2_Compress => 65,
        DefaultFunction::Bls12_381_G2_Uncompress => 66,
        DefaultFunction::Bls12_381_G2_HashToGroup => 67,
        DefaultFunction::Bls12_381_MillerLoop => 68,
        DefaultFunction::Bls12_381_MulMlResult => 69,
        DefaultFunction::Bls12_381_FinalVerify => 70,
        DefaultFunction::Keccak_256 => 71,
        DefaultFunction::Blake2b_224 => 72,
        DefaultFunction::IntegerToByteString => 73,
        DefaultFunction::ByteStringToInteger => 74,
        DefaultFunction::AndByteString => 75,
        DefaultFunction::OrByteString => 76,
        DefaultFunction::XorByteString => 77,
        DefaultFunction::ComplementByteString => 78,
        DefaultFunction::ReadBit => 79,
        DefaultFunction::WriteBits => 80,
        DefaultFunction::ReplicateByte => 81,
        DefaultFunction::ShiftByteString => 82,
        DefaultFunction::RotateByteString => 83,
        DefaultFunction::CountSetBits => 84,
        DefaultFunction::FindFirstSetBit => 85,
        DefaultFunction::Ripemd_160 => 86,
        DefaultFunction::ExpModInteger => 87,
        DefaultFunction::DropList => 88,
        DefaultFunction::LengthOfArray => 89,
        DefaultFunction::ListToArray => 90,
        DefaultFunction::IndexArray => 91,
    }
}

/// The original built-ins of the first ledger era (protocol version 5).
pub open spec fn in_batch1(f: DefaultFunction) -> bool {
    f == DefaultFunction::AddInteger
    || f == DefaultFunction::SubtractInteger
    || f == DefaultFunction::MultiplyInteger
    || f == DefaultFunction::DivideInteger
    || f == DefaultFunction::QuotientInteger
    || f == DefaultFunction::RemainderInteger
    || f == DefaultFunction::ModInteger
    || f == DefaultFunction::EqualsInteger
    || f == DefaultFunction::LessThanInteger
    || f == DefaultFunction::LessThanEqualsInteger
    || f == DefaultFunction::AppendByteString
    || f == DefaultFunction::ConsByteString
    || f == DefaultFunction::SliceByteString
    || f == DefaultFunction::LengthOfByteString
    || f == DefaultFunction::IndexByteString
    || f == DefaultFunction::EqualsByteString
    || f == DefaultFunction::LessThanByteString
    || f == DefaultFunction::LessThanEqualsByteString
    || f == DefaultFunction::Sha2_256
    || f == DefaultFunction::Sha3_256
    || f == DefaultFunction::Blake2b_256
    || f == DefaultFunction::VerifyEd25519Signature
    || f == DefaultFunction::AppendString
    || f == DefaultFunction::EqualsString
    || f == DefaultFunction::EncodeUtf8
    || f == DefaultFunction::DecodeUtf8
    || f == DefaultFunction::IfThenElse
    || f == DefaultFunction::ChooseUnit
    || f == DefaultFunction::Trace
    || f == DefaultFunction::FstPair
    || f == DefaultFunction::SndPair
    || f == DefaultFunction::ChooseList
    || f == DefaultFunction::MkCons
    || f == DefaultFunction::HeadList
    || f == DefaultFunction::TailList
    || f == DefaultFunction::NullList
    || f == DefaultFunction::ChooseData
    || f == DefaultFunction::ConstrData
    || f == DefaultFunction::MapData
    || f == DefaultFunction::ListData
    || f == DefaultFunction::IData
    || f == DefaultFunction::BData
    || f == DefaultFunction::UnConstrData
    || f == DefaultFunction::UnMapData
    || f == DefaultFunction::UnListData
    || f == DefaultFunction::UnIData
    || f == DefaultFunction::UnBData
    || f == DefaultFunction::EqualsData
    || f == DefaultFunction::MkPairData
    || f == DefaultFunction::MkNilData
    || f == DefaultFunction::MkNilPairData
}

/// `SerialiseData` (protocol version 7).
pub open spec fn in_batch2(f: DefaultFunction) -> bool {
    f == DefaultFunction::SerialiseData
}

/// The secp256k1 signature checks (protocol version 8).
pub open spec fn in_batch3(f: DefaultFunction) -> bool {
    f == DefaultFunction::VerifyEcdsaSecp256k1Signature
    || f == DefaultFunction::VerifySchnorrSecp256k1Signature
}

/// The BLS12-381 operations, Keccak-256 and Blake2b-224.
pub open spec fn in_batch4a(f: DefaultFunction) -> bool {
    f == DefaultFunction::Bls12_381_G1_Add
    || f == DefaultFunction::Bls12_381_G1_Neg
    || f == DefaultFunction::Bls12_381_G1_ScalarMul
    || f == DefaultFunction::Bls12_381_G1_Equal
    || f == DefaultFunction::Bls12_381_G1_Compress
    || f == DefaultFunction::Bls12_381_G1_Uncompress
    || f == DefaultFunction::Bls12_381_G1_HashToGroup
    || f == DefaultFunction::Bls12_381_G2_Add
    || f == DefaultFunction::Bls12_381_G2_Neg
    || f == DefaultFunction::Bls12_381_G2_ScalarMul
    || f == DefaultFunction::Bls12_381_G2_Equal
    || f == DefaultFunction::Bls12_381_G2_Compress
    || f == DefaultFunction::Bls12_381_G2_Uncompress
    || f == DefaultFunction::Bls12_381_G2_HashToGroup
    || f == DefaultFunction::Bls12_381_MillerLoop
    || f == DefaultFunction::Bls12_381_MulMlResult
    || f == DefaultFunction::Bls12_381_FinalVerify
    || f == DefaultFunction::Keccak_256
    || f == DefaultFunction::Blake2b_224
}

/// The integer/byte-string conversions.
pub open spec fn in_batch4b(f: DefaultFunction) -> bool {
    f == DefaultFunction::IntegerToByteString
    || f == DefaultFunction::ByteStringToInteger
}

/// The bitwise operations and RIPEMD-160.
pub open spec fn in_batch5(f: DefaultFunction) -> bool {
    f == DefaultFunction::AndByteString
    || f == DefaultFunction::OrByteString
    || f == DefaultFunction::XorByteString
    || f == DefaultFunction::ComplementByteString
    || f == DefaultFunction::ReadBit
    || f == DefaultFunction::WriteBits
    || f == DefaultFunction::ReplicateByte
    || f == DefaultFunction::ShiftByteString
    || f == DefaultFunction::RotateByteString
    || f == DefaultFunction::CountSetBits
    || f == DefaultFunction::FindFirstSetBit
    || f == DefaultFunction::Ripemd_160
}

/// Whether built-in `f` is offered under ledger language `v` at major
/// protocol version `pv`.
pub open spec fn spec_is_available_in(f: DefaultFunction, v: PlutusVersion, pv: u32) -> bool {
    match v {
        PlutusVersion::V1 => pv >= 11 || in_batch1(f),
        PlutusVersion::V2 => {
            if pv >= 11 {
                true
            } else if pv >= 10 {
                in_batch1(f) || in_batch2(f) || in_batch3(f) || in_batch4b(f)
            } else if pv >= 8 {
                in_batch1(f) || in_batch2(f) || in_batch3(f)
            } else {
                in_batch1(f) || in_batch2(f)
            }
        },
        PlutusVersion::V3 => {
            if pv >= 11 {
                true
            } else if pv >= 10 {
                in_batch1(f) || in_batch2(f) || in_batch3(f) || in_batch4a(f) || in_batch4b(f)
                    || in_batch5(f)
            } else {
                in_batch1(f) || in_batch2(f) || in_batch3(f) || in_batch4a(f) || in_batch4b(f)
            }
        },
    }
}

impl DefaultFunction {
    /// Number of forces required before this built-in accepts value arguments.
    pub fn force_count(&self) -> (r: usize)
        ensures
            r == spec_force_count(*self),
    {
        match self {
            DefaultFunction::AddInteger => 0,
            DefaultFunction::SubtractInteger => 0,
            DefaultFunction::MultiplyInteger => 0,
            DefaultFunction::DivideInteger => 0,
            DefaultFunction::QuotientInteger => 0,
            DefaultFunction::RemainderInteger => 0,
            DefaultFunction::ModInteger => 0,
            DefaultFunction::EqualsInteger => 0,
            DefaultFunction::LessThanInteger => 0,
            DefaultFunction::LessThanEqualsInteger => 0,
            DefaultFunction::AppendByteString => 0,
            DefaultFunction::ConsByteString => 0,
            DefaultFunction::SliceByteString => 0,
            DefaultFunction::LengthOfByteString => 0,
            DefaultFunction::IndexByteString => 0,
            DefaultFunction::EqualsByteString => 0,
            DefaultFunction::LessThanByteString => 0,
            DefaultFunction::LessThanEqualsByteString => 0,
            DefaultFunction::Sha2_256 => 0,
            DefaultFunction::Sha3_256 => 0,
            DefaultFunction::Blake2b_256 => 0,
            DefaultFunction::VerifyEd25519Signature => 0,
            DefaultFunction::AppendString => 0,
            DefaultFunction::EqualsString => 0,
            DefaultFunction::EncodeUtf8 => 0,
            DefaultFunction::DecodeUtf8 => 0,
            DefaultFunction::IfThenElse => 1,
            DefaultFunction::ChooseUnit => 1,
            DefaultFunction::Trace => 1,
            DefaultFunction::FstPair => 2,
            DefaultFunction::SndPair => 2,
            DefaultFunction::ChooseList => 2,
            DefaultFunction::MkCons => 1,
            DefaultFunction::HeadList => 1,
            DefaultFunction::TailList => 1,
            DefaultFunction::NullList => 1,
            DefaultFunction::ChooseData => 1,
            DefaultFunction::ConstrData => 0,
            DefaultFunction::MapData => 0,
            DefaultFunction::ListData => 0,
            DefaultFunction::IData => 0,
            DefaultFunction::BData => 0,
            DefaultFunction::UnConstrData => 0,
            DefaultFunction::UnMapData => 0,
            DefaultFunction::UnListData => 0,
            DefaultFunction::UnIData => 0,
            DefaultFunction::UnBData => 0,
            DefaultFunction::EqualsData => 0,
            DefaultFunction::MkPairData => 0,
            DefaultFunction::MkNilData => 0,
            DefaultFunction::MkNilPairData => 0,
            DefaultFunction::SerialiseData => 0,
            DefaultFunction::VerifyEcdsaSecp256k1Signature => 0,
            DefaultFunction::VerifySchnorrSecp256k1Signature => 0,
            DefaultFunction::Bls12_381_G1_Add => 0,
            DefaultFunction::Bls12_381_G1_Neg => 0,
            DefaultFunction::Bls12_381_G1_ScalarMul => 0,
            DefaultFunction::Bls12_381_G1_Equal => 0,
            DefaultFunction::Bls12_381_G1_Compress => 0,
            DefaultFunction::Bls12_381_G1_Uncompress => 0,
            DefaultFunction::Bls12_381_G1_HashToGroup => 0,
            DefaultFunction::Bls12_381_G2_Add => 0,
            DefaultFunction::Bls12_381_G2_Neg => 0,
            DefaultFunction::Bls12_381_G2_ScalarMul => 0,
            DefaultFunction::Bls12_381_G2_Equal => 0,
            DefaultFunction::Bls12_381_G2_Compress => 0,
            DefaultFunction::Bls12_381_G2_Uncompress => 0,
            DefaultFunction::Bls12_381_G2_HashToGroup => 0,
            DefaultFunction::Bls12_381_MillerLoop => 0,
            DefaultFunction::Bls12_381_MulMlResult => 0,
            DefaultFunction::Bls12_381_FinalVerify => 0,
            DefaultFunction::Keccak_256 => 0,
            DefaultFunction::Blake2b_224 => 0,
            DefaultFunction::IntegerToByteString => 0,
            DefaultFunction::ByteStringToInteger => 0,
            DefaultFunction::AndByteString => 0,
            DefaultFunction::OrByteString => 0,
            DefaultFunction::XorByteString => 0,
            DefaultFunction::ComplementByteString => 0,
            DefaultFunction::ReadBit => 0,
            DefaultFunction::WriteBits => 0,
            DefaultFunction::ReplicateByte => 0,
            DefaultFunction::ShiftByteString => 0,
            DefaultFunction::RotateByteString => 0,
            DefaultFunction::CountSetBits => 0,
            DefaultFunction::FindFirstSetBit => 0,
            DefaultFunction::Ripemd_160 => 0,
            DefaultFunction::ExpModInteger => 0,
            DefaultFunction::DropList => 1,
            DefaultFunction::LengthOfArray => 1,
            DefaultFunction::ListToArray => 1,
            DefaultFunction::IndexArray => 1,
        }
    }

    /// Number of value arguments this built-in expects after its forces.
    pub fn arity(&self) -> (r: usize)
        ensures
            r == spec_arity(*self),
    {
        match self {
            DefaultFunction::AddInteger => 2,
            DefaultFunction::SubtractInteger => 2,
            DefaultFunction::MultiplyInteger => 2,
            DefaultFunction::DivideInteger => 2,
            DefaultFunction::QuotientInteger => 2,
            DefaultFunction::RemainderInteger => 2,
            DefaultFunction::ModInteger => 2,
            DefaultFunction::EqualsInteger => 2,
            DefaultFunction::LessThanInteger => 2,
            DefaultFunction::LessThanEqualsInteger => 2,
            DefaultFunction::AppendByteString => 2,
            DefaultFunction::ConsByteString => 2,
            DefaultFunction::SliceByteString => 3,
            DefaultFunction::LengthOfByteString => 1,
            DefaultFunction::IndexByteString => 2,
            DefaultFunction::EqualsByteString => 2,
            DefaultFunction::LessThanByteString => 2,
            DefaultFunction::LessThanEqualsByteString => 2,
            DefaultFunction::Sha2_256 => 1,
            DefaultFunction::Sha3_256 => 1,
            DefaultFunction::Blake2b_256 => 1,
            DefaultFunction::VerifyEd25519Signature => 3,
            DefaultFunction::AppendString => 2,
            DefaultFunction::EqualsString => 2,
            DefaultFunction::EncodeUtf8 => 1,
            DefaultFunction::DecodeUtf8 => 1,
            DefaultFunction::IfThenElse => 3,
            DefaultFunction::ChooseUnit => 2,
            DefaultFunction::Trace => 2,
            DefaultFunction::FstPair => 1,
            DefaultFunction::SndPair => 1,
            DefaultFunction::ChooseList => 3,
            DefaultFunction::MkCons => 2,
            DefaultFunction::HeadList => 1,
            DefaultFunction::TailList => 1,
            DefaultFunction::NullList => 1,
            DefaultFunction::ChooseData => 6,
            DefaultFunction::ConstrData => 2,
            DefaultFunction::MapData => 1,
            DefaultFunction::ListData => 1,
            DefaultFunction::IData => 1,
            DefaultFunction::BData => 1,
            DefaultFunction::UnConstrData => 1,
            DefaultFunction::UnMapData => 1,
            DefaultFunction::UnListData => 1,
            DefaultFunction::UnIData => 1,
            DefaultFunction::UnBData => 1,
            DefaultFunction::EqualsData => 2,
            DefaultFunction::MkPairData => 2,
            DefaultFunction::MkNilData => 1,
            DefaultFunction::MkNilPairData => 1,
            DefaultFunction::SerialiseData => 1,
            DefaultFunction::VerifyEcdsaSecp256k1Signature => 3,
            DefaultFunction::VerifySchnorrSecp256k1Signature => 3,
            DefaultFunction::Bls12_381_G1_Add => 2,
            DefaultFunction::Bls12_381_G1_Neg => 1,
            DefaultFunction::Bls12_381_G1_ScalarMul => 2,
            DefaultFunction::Bls12_381_G1_Equal => 2,
            DefaultFunction::Bls12_381_G1_Compress => 1,
            DefaultFunction::Bls12_381_G1_Uncompress => 1,
            DefaultFunction::Bls12_381_G1_HashToGroup => 2,
            DefaultFunction::Bls12_381_G2_Add => 2,
            DefaultFunction::Bls12_381_G2_Neg => 1,
            DefaultFunction::Bls12_381_G2_ScalarMul => 2,
            DefaultFunction::Bls12_381_G2_Equal => 2,
            DefaultFunction::Bls12_381_G2_Compress => 1,
            DefaultFunction::Bls12_381_G2_Uncompress => 1,
            DefaultFunction::Bls12_381_G2_HashToGroup => 2,
            DefaultFunction::Bls12_381_MillerLoop => 2,
            DefaultFunction::Bls12_381_MulMlResult => 2,
            DefaultFunction::Bls12_381_FinalVerify => 2,
            DefaultFunction::Keccak_256 => 1,
            DefaultFunction::Blake2b_224 => 1,
            DefaultFunction::IntegerToByteString => 3,
            DefaultFunction::ByteStringToInteger => 2,
            DefaultFunction::AndByteString => 3,
            DefaultFunction::OrByteString => 3,
            DefaultFunction::XorByteString => 3,
            DefaultFunction::ComplementByteString => 1,
            DefaultFunction::ReadBit => 2,
            DefaultFunction::WriteBits => 3,
            DefaultFunction::ReplicateByte => 2,
            DefaultFunction::ShiftByteString => 2,
            DefaultFunction::RotateByteString => 2,
            DefaultFunction::CountSetBits => 1,
            DefaultFunction::FindFirstSetBit => 1,
            DefaultFunction::Ripemd_160 => 1,
            DefaultFunction::ExpModInteger => 3,
            DefaultFunction::DropList => 2,
            DefaultFunction::LengthOfArray => 1,
            DefaultFunction::ListToArray => 1,
            DefaultFunction::IndexArray => 2,
        }
    }

    /// The tag that stands for this built-in in the Flat encoding.
    pub fn tag(&self) -> (r: u8)
        ensures
            r == spec_tag(*self),
    {
        match self {
            DefaultFunction::AddInteger => 0,
            DefaultFunction::SubtractInteger => 1,
            DefaultFunction::MultiplyInteger => 2,
            DefaultFunction::DivideInteger => 3,
            DefaultFunction::QuotientInteger => 4,
            DefaultFunction::RemainderInteger => 5,
            DefaultFunction::ModInteger => 6,
            DefaultFunction::EqualsInteger => 7,
            DefaultFunction::LessThanInteger => 8,
            DefaultFunction::LessThanEqualsInteger => 9,
            DefaultFunction::AppendByteString => 10,
            DefaultFunction::ConsByteString => 11,
            DefaultFunction::SliceByteString => 12,
            DefaultFunction::LengthOfByteString => 13,
            DefaultFunction::IndexByteString => 14,
            DefaultFunction::EqualsByteString => 15,
            DefaultFunction::LessThanByteString => 16,
            DefaultFunction::LessThanEqualsByteString => 17,
            DefaultFunction::Sha2_256 => 18,
            DefaultFunction::Sha3_256 => 19,
            DefaultFunction::Blake2b_256 => 20,
            DefaultFunction::VerifyEd25519Signature => 21,
            DefaultFunction::AppendString => 22,
            DefaultFunction::EqualsString => 23,
            DefaultFunction::EncodeUtf8 => 24,
            DefaultFunction::DecodeUtf8 => 25,
            DefaultFunction::IfThenElse => 26,
            DefaultFunction::ChooseUnit => 27,
            DefaultFunction::Trace => 28,
            DefaultFunction::FstPair => 29,
            DefaultFunction::SndPair => 30,
            DefaultFunction::ChooseList => 31,
            DefaultFunction::MkCons => 32,
            DefaultFunction::HeadList => 33,
            DefaultFunction::TailList => 34,
            DefaultFunction::NullList => 35,
            DefaultFunction::ChooseData => 36,
            DefaultFunction::ConstrData => 37,
            DefaultFunction::MapData => 38,
            DefaultFunction::ListData => 39,
            DefaultFunction::IData => 40,
            DefaultFunction::BData => 41,
            DefaultFunction::UnConstrData => 42,
            DefaultFunction::UnMapData => 43,
            DefaultFunction::UnListData => 44,
            DefaultFunction::UnIData => 45,
            DefaultFunction::UnBData => 46,
            DefaultFunction::EqualsData => 47,
            DefaultFunction::MkPairData => 48,
            DefaultFunction::MkNilData => 49,
            DefaultFunction::MkNilPairData => 50,
            DefaultFunction::SerialiseData => 51,
            DefaultFunction::VerifyEcdsaSecp256k1Signature => 52,
            DefaultFunction::VerifySchnorrSecp256k1Signature => 53,
            DefaultFunction::Bls12_381_G1_Add => 54,
            DefaultFunction::Bls12_381_G1_Neg => 55,
            DefaultFunction::Bls12_381_G1_ScalarMul => 56,
            DefaultFunction::Bls12_381_G1_Equal => 57,
            DefaultFunction::Bls12_381_G1_Compress => 58,
            DefaultFunction::Bls12_381_G1_Uncompress => 59,
            DefaultFunction::Bls12_381_G1_HashToGroup => 60,
            DefaultFunction::Bls12_381_G2_Add => 61,
            DefaultFunction::Bls12_381_G2_Neg => 62,
            DefaultFunction::Bls12_381_G2_ScalarMul => 63,
            DefaultFunction::Bls12_381_G2_Equal => 64,
            DefaultFunction::Bls12_381_G2_Compress => 65,
            DefaultFunction::Bls12_381_G2_Uncompress => 66,
            DefaultFunction::Bls12_381_G2_HashToGroup => 67,
            DefaultFunction::Bls12_381_MillerLoop => 68,
            DefaultFunction::Bls12_381_MulMlResult => 69,
            DefaultFunction::Bls12_381_FinalVerify => 70,
            DefaultFunction::Keccak_256 => 71,
            DefaultFunction::Blake2b_224 => 72,
            DefaultFunction::IntegerToByteString => 73,
            DefaultFunction::ByteStringToInteger => 74,
            DefaultFunction::AndByteString => 75,
            DefaultFunction::OrByteString => 76,
            DefaultFunction::XorByteString => 77,
            DefaultFunction::ComplementByteString => 78,
            DefaultFunction::ReadBit => 79,
            DefaultFunction::WriteBits => 80,
            DefaultFunction::ReplicateByte => 81,
            DefaultFunction::ShiftByteString => 82,
            DefaultFunction::RotateByteString => 83,
            DefaultFunction::CountSetBits => 84,
            DefaultFunction::FindFirstSetBit => 85,
            DefaultFunction::Ripemd_160 => 86,
            DefaultFunction::ExpModInteger => 87,
            DefaultFunction::DropList => 88,
            DefaultFunction::LengthOfArray => 89,
            DefaultFunction::ListToArray => 90,
            DefaultFunction::IndexArray => 91,
        }
    }

    /// The built-in whose Flat tag is `t`, if any.
    pub fn from_tag(t: u8) -> (r: Option<DefaultFunction>)
        ensures
            r == spec_from_tag(t),
            r matches Some(f) ==> spec_tag(f) == t,
            r is None <==> t >= 92,
            forall|f: DefaultFunction| spec_tag(f) == t ==> r == Some(f),
    {
        match t {
            0 => Some(DefaultFunction::AddInteger),
            1 => Some(DefaultFunction::SubtractInteger),
            2 => Some(DefaultFunction::MultiplyInteger),
            3 => Some(DefaultFunction::DivideInteger),
            4 => Some(DefaultFunction::QuotientInteger),
            5 => Some(DefaultFunction::RemainderInteger),
            6 => Some(DefaultFunction::ModInteger),
            7 => Some(DefaultFunction::EqualsInteger),
            8 => Some(DefaultFunction::LessThanInteger),
            9 => Some(DefaultFunction::LessThanEqualsInteger),
            10 => Some(DefaultFunction::AppendByteString),
            11 => Some(DefaultFunction::ConsByteString),
            12 => Some(DefaultFunction::SliceByteString),
            13 => Some(DefaultFunction::LengthOfByteString),
            14 => Some(DefaultFunction::IndexByteString),
            15 => Some(DefaultFunction::EqualsByteString),
            16 => Some(DefaultFunction::LessThanByteString),
            17 => Some(DefaultFunction::LessThanEqualsByteString),
            18 => Some(DefaultFunction::Sha2_256),
            19 => Some(DefaultFunction::Sha3_256),
            20 => Some(DefaultFunction::Blake2b_256),
            21 => Some(DefaultFunction::VerifyEd25519Signature),
            22 => Some(DefaultFunction::AppendString),
            23 => Some(DefaultFunction::EqualsString),
            24 => Some(DefaultFunction::EncodeUtf8),
            25 => Some(DefaultFunction::DecodeUtf8),
            26 => Some(DefaultFunction::IfThenElse),
            27 => Some(DefaultFunction::ChooseUnit),
            28 => Some(DefaultFunction::Trace),
            29 => Some(DefaultFunction::FstPair),
            30 => Some(DefaultFunction::SndPair),
            31 => Some(DefaultFunction::ChooseList),
            32 => Some(DefaultFunction::MkCons),
            33 => Some(DefaultFunction::HeadList),
            34 => Some(DefaultFunction::TailList),
            35 => Some(DefaultFunction::NullList),
            36 => Some(DefaultFunction::ChooseData),
            37 => Some(DefaultFunction::ConstrData),
            38 => Some(DefaultFunction::MapData),
            39 => Some(DefaultFunction::ListData),
            40 => Some(DefaultFunction::IData),
            41 => Some(DefaultFunction::BData),
            42 => Some(DefaultFunction::UnConstrData),
            43 => Some(DefaultFunction::UnMapData),
            44 => Some(DefaultFunction::UnListData),
            45 => Some(DefaultFunction::UnIData),
            46 => Some(DefaultFunction::UnBData),
            47 => Some(DefaultFunction::EqualsData),
            48 => Some(DefaultFunction::MkPairData),
            49 => Some(DefaultFunction::MkNilData),
            50 => Some(DefaultFunction::MkNilPairData),
            51 => Some(DefaultFunction::SerialiseData),
            52 => Some(DefaultFunction::VerifyEcdsaSecp256k1Signature),
            53 => Some(DefaultFunction::VerifySchnorrSecp256k1Signature),
            54 => Some(DefaultFunction::Bls12_381_G1_Add),
            55 => Some(DefaultFunction::Bls12_381_G1_Neg),
            56 => Some(DefaultFunction::Bls12_381_G1_ScalarMul),
            57 => Some(DefaultFunction::Bls12_381_G1_Equal),
            58 => Some(DefaultFunction::Bls12_381_G1_Compress),
            59 => Some(DefaultFunction::Bls12_381_G1_Uncompress),
            60 => Some(DefaultFunction::Bls12_381_G1_HashToGroup),
            61 => Some(DefaultFunction::Bls12_381_G2_Add),
            62 => Some(DefaultFunction::Bls12_381_G2_Neg),
            63 => Some(DefaultFunction::Bls12_381_G2_ScalarMul),
            64 => Some(DefaultFunction::Bls12_381_G2_Equal),
            65 => Some(DefaultFunction::Bls12_381_G2_Compress),
            66 => Some(DefaultFunction::Bls12_381_G2_Uncompress),
            67 => Some(DefaultFunction::Bls12_381_G2_HashToGroup),
            68 => Some(DefaultFunction::Bls12_381_MillerLoop),
            69 => Some(DefaultFunction::Bls12_381_MulMlResult),
            70 => Some(DefaultFunction::Bls12_381_FinalVerify),
            71 => Some(DefaultFunction::Keccak_256),
            72 => Some(DefaultFunction::Blake2b_224),
            73 => Some(DefaultFunction::IntegerToByteString),
            74 => Some(DefaultFunction::ByteStringToInteger),
            75 => Some(DefaultFunction::AndByteString),
            76 => Some(DefaultFunction::OrByteString),
            77 => Some(DefaultFunction::XorByteString),
            78 => Some(DefaultFunction::ComplementByteString),
            79 => Some(DefaultFunction::ReadBit),
            80 => Some(DefaultFunction::WriteBits),
            81 => Some(DefaultFunction::ReplicateByte),
            82 => Some(DefaultFunction::ShiftByteString),
            83 => Some(DefaultFunction::RotateByteString),
            84 => Some(DefaultFunction::CountSetBits),
            85 => Some(DefaultFunction::FindFirstSetBit),
            86 => Some(DefaultFunction::Ripemd_160),
            87 => Some(DefaultFunction::ExpModInteger),
            88 => Some(DefaultFunction::DropList),
            89 => Some(DefaultFunction::LengthOfArray),
            90 => Some(DefaultFunction::ListToArray),
            91 => Some(DefaultFunction::IndexArray),
            _ => None,
        }
    }

    fn batch1(&self) -> (r: bool)
        ensures
            r == in_batch1(*self),
    {
        match self {
            DefaultFunction::AddInteger => true,
            DefaultFunction::SubtractInteger => true,
            DefaultFunction::MultiplyInteger => true,
            DefaultFunction::DivideInteger => true,
            DefaultFunction::QuotientInteger => true,
            DefaultFunction::RemainderInteger => true,
            DefaultFunction::ModInteger => true,
            DefaultFunction::EqualsInteger => true,
            DefaultFunction::LessThanInteger => true,
            DefaultFunction::LessThanEqualsInteger => true,
            DefaultFunction::AppendByteString => true,
            DefaultFunction::ConsByteString => true,
            DefaultFunction::SliceByteString => true,
            DefaultFunction::LengthOfByteString => true,
            DefaultFunction::IndexByteString => true,
            DefaultFunction::EqualsByteString => true,
            DefaultFunction::LessThanByteString => true,
            DefaultFunction::LessThanEqualsByteString => true,
            DefaultFunction::Sha2_256 => true,
            DefaultFunction::Sha3_256 => true,
            DefaultFunction::Blake2b_256 => true,
            DefaultFunction::VerifyEd25519Signature => true,
            DefaultFunction::AppendString => true,
            DefaultFunction::EqualsString => true,
            DefaultFunction::EncodeUtf8 => true,
            DefaultFunction::DecodeUtf8 => true,
            DefaultFunction::IfThenElse => true,
            DefaultFunction::ChooseUnit => true,
            DefaultFunction::Trace => true,
            DefaultFunction::FstPair => true,
            DefaultFunction::SndPair => true,
            DefaultFunction::ChooseList => true,
            DefaultFunction::MkCons => true,
            DefaultFunction::HeadList => true,
            DefaultFunction::TailList => true,
            DefaultFunction::NullList => true,
            DefaultFunction::ChooseData => true,
            DefaultFunction::ConstrData => true,
            DefaultFunction::MapData => true,
            DefaultFunction::ListData => true,
            DefaultFunction::IData => true,
            DefaultFunction::BData => true,
            DefaultFunction::UnConstrData => true,
            DefaultFunction::UnMapData => true,
            DefaultFunction::UnListData => true,
            DefaultFunction::UnIData => true,
            DefaultFunction::UnBData => true,
            DefaultFunction::EqualsData => true,
            DefaultFunction::MkPairData => true,
            DefaultFunction::MkNilData => true,
            DefaultFunction::MkNilPairData => true,
            _ => false,
        }
    }

    fn batch2(&self) -> (r: bool)
        ensures
            r == in_batch2(*self),
    {
        match self {
            DefaultFunction::SerialiseData => true,
            _ => false,
        }
    }

    fn batch3(&self) -> (r: bool)
        ensures
            r == in_batch3(*self),
    {
        match self {
            DefaultFunction::VerifyEcdsaSecp256k1Signature => true,
            DefaultFunction::VerifySchnorrSecp256k1Signature => true,
            _ => false,
        }
    }

    fn batch4a(&self) -> (r: bool)
        ensures
            r == in_batch4a(*self),
    {
        match self {
            DefaultFunction::Bls12_381_G1_Add => true,
            DefaultFunction::Bls12_381_G1_Neg => true,
            DefaultFunction::Bls12_381_G1_ScalarMul => true,
            DefaultFunction::Bls12_381_G1_Equal => true,
            DefaultFunction::Bls12_381_G1_Compress => true,
            DefaultFunction::Bls12_381_G1_Uncompress => true,
            DefaultFunction::Bls12_381_G1_HashToGroup => true,
            DefaultFunction::Bls12_381_G2_Add => true,
            DefaultFunction::Bls12_381_G2_Neg => true,
            DefaultFunction::Bls12_381_G2_ScalarMul => true,
            DefaultFunction::Bls12_381_G2_Equal => true,
            DefaultFunction::Bls12_381_G2_Compress => true,
            DefaultFunction::Bls12_381_G2_Uncompress => true,
            DefaultFunction::Bls12_381_G2_HashToGroup => true,
            DefaultFunction::Bls12_381_MillerLoop => true,
            DefaultFunction::Bls12_381_MulMlResult => true,
            DefaultFunction::Bls12_381_FinalVerify => true,
            DefaultFunction::Keccak_256 => true,
            DefaultFunction::Blake2b_224 => true,
            _ => false,
        }
    }

    fn batch4b(&self) -> (r: bool)
        ensures
            r == in_batch4b(*self),
    {
        match self {
            DefaultFunction::IntegerToByteString => true,
            DefaultFunction::ByteStringToInteger => true,
            _ => false,
        }
    }

    fn batch5(&self) -> (r: bool)
        ensures
            r == in_batch5(*self),
    {
        match self {
            DefaultFunction::AndByteString => true,
            DefaultFunction::OrByteString => true,
            DefaultFunction::XorByteString => true,
            DefaultFunction::ComplementByteString => true,
            DefaultFunction::ReadBit => true,
            DefaultFunction::WriteBits => true,
            DefaultFunction::ReplicateByte => true,
            DefaultFunction::ShiftByteString => true,
            DefaultFunction::RotateByteString => true,
            DefaultFunction::CountSetBits => true,
            DefaultFunction::FindFirstSetBit => true,
            DefaultFunction::Ripemd_160 => true,
            _ => false,
        }
    }

    /// Whether this built-in is offered under ledger language `plutus_version`
    /// at major protocol version `pv`.
    pub fn is_available_in(&self, plutus_version: PlutusVersion, pv: u32) -> (r: bool)
        ensures
            r == spec_is_available_in(*self, plutus_version, pv),
    {
        let batch1 = self.batch1();
        let batch2 = self.batch2();
        let batch3 = self.batch3();
        let batch4a = self.batch4a();
        let batch4b = self.batch4b();
        let batch5 = self.batch5();
        match plutus_version {
            PlutusVersion::V1 => {
                if pv >= 11 {
                    true
                } else {
                    batch1
                }
            },
            PlutusVersion::V2 => {
                if pv >= 11 {
                    true
                } else if pv >= 10 {
                    batch1 || batch2 || batch3 || batch4b
                } else if pv >= 8 {
                    batch1 || batch2 || batch3
                } else {
                    batch1 || batch2
                }
            },
            PlutusVersion::V3 => {
                if pv >= 11 {
                    true
                } else if pv >= 10 {
                    batch1 || batch2 || batch3 || batch4a || batch4b || batch5
                } else {
                    batch1 || batch2 || batch3 || batch4a || batch4b
                }
            },
        }
    }
}

/// The built-in whose Flat tag is `t`, if any.
pub open spec fn spec_from_tag(t: u8) -> Option<DefaultFunction> {
    match t {
        0 => Some(DefaultFunction::AddInteger),
        1 => Some(DefaultFunction::SubtractInteger),
        2 => Some(DefaultFunction::MultiplyInteger),
        3 => Some(DefaultFunction::DivideInteger),
        4 => Some(DefaultFunction::QuotientInteger),
        5 => Some(DefaultFunction::RemainderInteger),
        6 => Some(DefaultFunction::ModInteger),
        7 => Some(DefaultFunction::EqualsInteger),
        8 => Some(DefaultFunction::LessThanInteger),
        9 => Some(DefaultFunction::LessThanEqualsInteger),
        10 => Some(DefaultFunction::AppendByteString),
        11 => Some(DefaultFunction::ConsByteString),
        12 => Some(DefaultFunction::SliceByteString),
        13 => Some(DefaultFunction::LengthOfByteString),
        14 => Some(DefaultFunction::IndexByteString),
        15 => Some(DefaultFunction::EqualsByteString),
        16 => Some(DefaultFunction::LessThanByteString),
        17 => Some(DefaultFunction::LessThanEqualsByteString),
        18 => Some(DefaultFunction::Sha2_256),
        19 => Some(DefaultFunction::Sha3_256),
        20 => Some(DefaultFunction::Blake2b_256),
        21 => Some(DefaultFunction::VerifyEd25519Signature),
        22 => Some(DefaultFunction::AppendString),
        23 => Some(DefaultFunction::EqualsString),
        24 => Some(DefaultFunction::EncodeUtf8),
        25 => Some(DefaultFunction::DecodeUtf8),
        26 => Some(DefaultFunction::IfThenElse),
        27 => Some(DefaultFunction::ChooseUnit),
        28 => Some(DefaultFunction::Trace),
        29 => Some(DefaultFunction::FstPair),
        30 => Some(DefaultFunction::SndPair),
        31 => Some(DefaultFunction::ChooseList),
        32 => Some(DefaultFunction::MkCons),
        33 => Some(DefaultFunction::HeadList),
        34 => Some(DefaultFunction::TailList),
        35 => Some(DefaultFunction::NullList),
        36 => Some(DefaultFunction::ChooseData),
        37 => Some(DefaultFunction::ConstrData),
        38 => Some(DefaultFunction::MapData),
        39 => Some(DefaultFunction::ListData),
        40 => Some(DefaultFunction::IData),
        41 => Some(DefaultFunction::BData),
        42 => Some(DefaultFunction::UnConstrData),
        43 => Some(DefaultFunction::UnMapData),
        44 => Some(DefaultFunction::UnListData),
        45 => Some(DefaultFunction::UnIData),
        46 => Some(DefaultFunction::UnBData),
        47 => Some(DefaultFunction::EqualsData),
        48 => Some(DefaultFunction::MkPairData),
        49 => Some(DefaultFunction::MkNilData),
        50 => Some(DefaultFunction::MkNilPairData),
        51 => Some(DefaultFunction::SerialiseData),
        52 => Some(DefaultFunction::VerifyEcdsaSecp256k1Signature),
        53 => Some(DefaultFunction::VerifySchnorrSecp256k1Signature),
        54 => Some(DefaultFunction::Bls12_381_G1_Add),
        55 => Some(DefaultFunction::Bls12_381_G1_Neg),
        56 => Some(DefaultFunction::Bls12_381_G1_ScalarMul),
        57 => Some(DefaultFunction::Bls12_381_G1_Equal),
        58 => Some(DefaultFunction::Bls12_381_G1_Compress),
        59 => Some(DefaultFunction::Bls12_381_G1_Uncompress),
        60 => Some(DefaultFunction::Bls12_381_G1_HashToGroup),
        61 => Some(DefaultFunction::Bls12_381_G2_Add),
        62 => Some(DefaultFunction::Bls12_381_G2_Neg),
        63 => Some(DefaultFunction::Bls12_381_G2_ScalarMul),
        64 => Some(DefaultFunction::Bls12_381_G2_Equal),
        65 => Some(DefaultFunction::Bls12_381_G2_Compress),
        66 => Some(DefaultFunction::Bls12_381_G2_Uncompress),
        67 => Some(DefaultFunction::Bls12_381_G2_HashToGroup),
        68 => Some(DefaultFunction::Bls12_381_MillerLoop),
        69 => Some(DefaultFunction::Bls12_381_MulMlResult),
        70 => Some(DefaultFunction::Bls12_381_FinalVerify),
        71 => Some(DefaultFunction::Keccak_256),
        72 => Some(DefaultFunction::Blake2b_224),
        73 => Some(DefaultFunction::IntegerToByteString),
        74 => Some(DefaultFunction::ByteStringToInteger),
        75 => Some(DefaultFunction::AndByteString),
        76 => Some(DefaultFunction::OrByteString),
        77 => Some(DefaultFunction::XorByteString),
        78 => Some(DefaultFunction::ComplementByteString),
        79 => Some(DefaultFunction::ReadBit),
        80 => Some(DefaultFunction::WriteBits),
        81 => Some(DefaultFunction::ReplicateByte),
        82 => Some(DefaultFunction::ShiftByteString),
        83 => Some(DefaultFunction::RotateByteString),
        84 => Some(DefaultFunction::CountSetBits),
        85 => Some(DefaultFunction::FindFirstSetBit),
        86 => Some(DefaultFunction::Ripemd_160),
        87 => Some(DefaultFunction::ExpModInteger),
        88 => Some(DefaultFunction::DropList),
        89 => Some(DefaultFunction::LengthOfArray),
        90 => Some(DefaultFunction::ListToArray),
        91 => Some(DefaultFunction::IndexArray),
        _ => None,
    }
}

/// Reading a built-in's tag back gives the built-in.
pub proof fn lemma_from_tag_tag(f: DefaultFunction)
    ensures
        spec_from_tag(spec_tag(f)) == Some(f),
{
}

/// A built-in takes at most two forces and six arguments.
pub proof fn lemma_counts_bound(f: DefaultFunction)
    ensures
        spec_force_count(f) <= 2,
        spec_arity(f) <= 6,
{
}

/// Every built-in tag is below the number of built-ins.
pub proof fn lemma_tag_count(f: DefaultFunction)
    ensures
        spec_tag(f) < 92,
{
}

/// Every built-in tag fits in the 7 bits the Flat format reserves for it.
pub proof fn lemma_tag_bound(f: DefaultFunction)
    ensures
        spec_tag(f) < 128,
{
}

} // verus!
