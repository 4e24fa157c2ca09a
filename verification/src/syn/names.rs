//! The names of built-in functions in the text form.

use vstd::prelude::*;

use crate::builtin::DefaultFunction;

use super::lex::spells;

verus! {

/// The built-in function that the text form calls `w`, if any.
pub open spec fn builtin_named(w: Seq<char>) -> Option<DefaultFunction> {
    if w == "addInteger"@ {
        Some(DefaultFunction::AddInteger)
    } else if w == "subtractInteger"@ {
        Some(DefaultFunction::SubtractInteger)
    } else if w == "equalsInteger"@ {
        Some(DefaultFunction::EqualsInteger)
    } else if w == "lessThanEqualsInteger"@ {
        Some(DefaultFunction::LessThanEqualsInteger)
    } else if w == "multiplyInteger"@ {
        Some(DefaultFunction::MultiplyInteger)
    } else if w == "divideInteger"@ {
        Some(DefaultFunction::DivideInteger)
    } else if w == "quotientInteger"@ {
        Some(DefaultFunction::QuotientInteger)
    } else if w == "remainderInteger"@ {
        Some(DefaultFunction::RemainderInteger)
    } else if w == "modInteger"@ {
        Some(DefaultFunction::ModInteger)
    } else if w == "lessThanInteger"@ {
        Some(DefaultFunction::LessThanInteger)
    } else if w == "ifThenElse"@ {
        Some(DefaultFunction::IfThenElse)
    } else if w == "appendByteString"@ {
        Some(DefaultFunction::AppendByteString)
    } else if w == "equalsByteString"@ {
        Some(DefaultFunction::EqualsByteString)
    } else if w == "consByteString"@ {
        Some(DefaultFunction::ConsByteString)
    } else if w == "sliceByteString"@ {
        Some(DefaultFunction::SliceByteString)
    } else if w == "lengthOfByteString"@ {
        Some(DefaultFunction::LengthOfByteString)
    } else if w == "indexByteString"@ {
        Some(DefaultFunction::IndexByteString)
    } else if w == "lessThanByteString"@ {
        Some(DefaultFunction::LessThanByteString)
    } else if w == "lessThanEqualsByteString"@ {
        Some(DefaultFunction::LessThanEqualsByteString)
    } else if w == "sha2_256"@ {
        Some(DefaultFunction::Sha2_256)
    } else if w == "sha3_256"@ {
        Some(DefaultFunction::Sha3_256)
    } else if w == "blake2b_256"@ {
        Some(DefaultFunction::Blake2b_256)
    } else if w == "keccak_256"@ {
        Some(DefaultFunction::Keccak_256)
    } else if w == "blake2b_224"@ {
        Some(DefaultFunction::Blake2b_224)
    } else if w == "verifyEd25519Signature"@ {
        Some(DefaultFunction::VerifyEd25519Signature)
    } else if w == "verifyEcdsaSecp256k1Signature"@ {
        Some(DefaultFunction::VerifyEcdsaSecp256k1Signature)
    } else if w == "verifySchnorrSecp256k1Signature"@ {
        Some(DefaultFunction::VerifySchnorrSecp256k1Signature)
    } else if w == "appendString"@ {
        Some(DefaultFunction::AppendString)
    } else if w == "equalsString"@ {
        Some(DefaultFunction::EqualsString)
    } else if w == "encodeUtf8"@ {
        Some(DefaultFunction::EncodeUtf8)
    } else if w == "decodeUtf8"@ {
        Some(DefaultFunction::DecodeUtf8)
    } else if w == "chooseUnit"@ {
        Some(DefaultFunction::ChooseUnit)
    } else if w == "fstPair"@ {
        Some(DefaultFunction::FstPair)
    } else if w == "sndPair"@ {
        Some(DefaultFunction::SndPair)
    } else if w == "chooseList"@ {
        Some(DefaultFunction::ChooseList)
    } else if w == "mkCons"@ {
        Some(DefaultFunction::MkCons)
    } else if w == "headList"@ {
        Some(DefaultFunction::HeadList)
    } else if w == "tailList"@ {
        Some(DefaultFunction::TailList)
    } else if w == "nullList"@ {
        Some(DefaultFunction::NullList)
    } else if w == "chooseData"@ {
        Some(DefaultFunction::ChooseData)
    } else if w == "constrData"@ {
        Some(DefaultFunction::ConstrData)
    } else if w == "listData"@ {
        Some(DefaultFunction::ListData)
    } else if w == "iData"@ {
        Some(DefaultFunction::IData)
    } else if w == "bData"@ {
        Some(DefaultFunction::BData)
    } else if w == "unConstrData"@ {
        Some(DefaultFunction::UnConstrData)
    } else if w == "unListData"@ {
        Some(DefaultFunction::UnListData)
    } else if w == "unIData"@ {
        Some(DefaultFunction::UnIData)
    } else if w == "unBData"@ {
        Some(DefaultFunction::UnBData)
    } else if w == "equalsData"@ {
        Some(DefaultFunction::EqualsData)
    } else if w == "mkPairData"@ {
        Some(DefaultFunction::MkPairData)
    } else if w == "mkNilData"@ {
        Some(DefaultFunction::MkNilData)
    } else if w == "mkNilPairData"@ {
        Some(DefaultFunction::MkNilPairData)
    } else {
        None
    }
}

/// The built-in function named by the characters from `a` to `e`.
pub fn builtin_at(s: &[char], a: usize, e: usize) -> (r: Option<DefaultFunction>)
    requires
        a <= e <= s@.len(),
    ensures
        r == builtin_named(s@.subrange(a as int, e as int)),
{
    if spells(s, a, e, "addInteger") {
        Some(DefaultFunction::AddInteger)
    } else if spells(s, a, e, "subtractInteger") {
        Some(DefaultFunction::SubtractInteger)
    } else if spells(s, a, e, "equalsInteger") {
        Some(DefaultFunction::EqualsInteger)
    } else if spells(s, a, e, "lessThanEqualsInteger") {
        Some(DefaultFunction::LessThanEqualsInteger)
    } else if spells(s, a, e, "multiplyInteger") {
        Some(DefaultFunction::MultiplyInteger)
    } else if spells(s, a, e, "divideInteger") {
        Some(DefaultFunction::DivideInteger)
    } else if spells(s, a, e, "quotientInteger") {
        Some(DefaultFunction::QuotientInteger)
    } else if spells(s, a, e, "remainderInteger") {
        Some(DefaultFunction::RemainderInteger)
    } else if spells(s, a, e, "modInteger") {
        Some(DefaultFunction::ModInteger)
    } else if spells(s, a, e, "lessThanInteger") {
        Some(DefaultFunction::LessThanInteger)
    } else if spells(s, a, e, "ifThenElse") {
        Some(DefaultFunction::IfThenElse)
    } else if spells(s, a, e, "appendByteString") {
        Some(DefaultFunction::AppendByteString)
    } else if spells(s, a, e, "equalsByteString") {
        Some(DefaultFunction::EqualsByteString)
    } else if spells(s, a, e, "consByteString") {
        Some(DefaultFunction::ConsByteString)
    } else if spells(s, a, e, "sliceByteString") {
        Some(DefaultFunction::SliceByteString)
    } else if spells(s, a, e, "lengthOfByteString") {
        Some(DefaultFunction::LengthOfByteString)
    } else if spells(s, a, e, "indexByteString") {
        Some(DefaultFunction::IndexByteString)
    } else if spells(s, a, e, "lessThanByteString") {
        Some(DefaultFunction::LessThanByteString)
    } else if spells(s, a, e, "lessThanEqualsByteString") {
        Some(DefaultFunction::LessThanEqualsByteString)
    } else if spells(s, a, e, "sha2_256") {
        Some(DefaultFunction::Sha2_256)
    } else if spells(s, a, e, "sha3_256") {
        Some(DefaultFunction::Sha3_256)
    } else if spells(s, a, e, "blake2b_256") {
        Some(DefaultFunction::Blake2b_256)
    } else if spells(s, a, e, "keccak_256") {
        Some(DefaultFunction::Keccak_256)
    } else if spells(s, a, e, "blake2b_224") {
        Some(DefaultFunction::Blake2b_224)
    } else if spells(s, a, e, "verifyEd25519Signature") {
        Some(DefaultFunction::VerifyEd25519Signature)
    } else if spells(s, a, e, "verifyEcdsaSecp256k1Signature") {
        Some(DefaultFunction::VerifyEcdsaSecp256k1Signature)
    } else if spells(s, a, e, "verifySchnorrSecp256k1Signature") {
        Some(DefaultFunction::VerifySchnorrSecp256k1Signature)
    } else if spells(s, a, e, "appendString") {
        Some(DefaultFunction::AppendString)
    } else if spells(s, a, e, "equalsString") {
        Some(DefaultFunction::EqualsString)
    } else if spells(s, a, e, "encodeUtf8") {
        Some(DefaultFunction::EncodeUtf8)
    } else if spells(s, a, e, "decodeUtf8") {
        Some(DefaultFunction::DecodeUtf8)
    } else if spells(s, a, e, "chooseUnit") {
        Some(DefaultFunction::ChooseUnit)
    } else if spells(s, a, e, "fstPair") {
        Some(DefaultFunction::FstPair)
    } else if spells(s, a, e, "sndPair") {
        Some(DefaultFunction::SndPair)
    } else if spells(s, a, e, "chooseList") {
        Some(DefaultFunction::ChooseList)
    } else if spells(s, a, e, "mkCons") {
        Some(DefaultFunction::MkCons)
    } else if spells(s, a, e, "headList") {
        Some(DefaultFunction::HeadList)
    } else if spells(s, a, e, "tailList") {
        Some(DefaultFunction::TailList)
    } else if spells(s, a, e, "nullList") {
        Some(DefaultFunction::NullList)
    } else if spells(s, a, e, "chooseData") {
        Some(DefaultFunction::ChooseData)
    } else if spells(s, a, e, "constrData") {
        Some(DefaultFunction::ConstrData)
    } else if spells(s, a, e, "listData") {
        Some(DefaultFunction::ListData)
    } else if spells(s, a, e, "iData") {
        Some(DefaultFunction::IData)
    } else if spells(s, a, e, "bData") {
        Some(DefaultFunction::BData)
    } else if spells(s, a, e, "unConstrData") {
        Some(DefaultFunction::UnConstrData)
    } else if spells(s, a, e, "unListData") {
        Some(DefaultFunction::UnListData)
    } else if spells(s, a, e, "unIData") {
        Some(DefaultFunction::UnIData)
    } else if spells(s, a, e, "unBData") {
        Some(DefaultFunction::UnBData)
    } else if spells(s, a, e, "equalsData") {
        Some(DefaultFunction::EqualsData)
    } else if spells(s, a, e, "mkPairData") {
        Some(DefaultFunction::MkPairData)
    } else if spells(s, a, e, "mkNilData") {
        Some(DefaultFunction::MkNilData)
    } else if spells(s, a, e, "mkNilPairData") {
        Some(DefaultFunction::MkNilPairData)
    } else {
        None
    }
}

} // verus!
