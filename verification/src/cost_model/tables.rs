//! The per-version cost tables of the built-ins and of machine steps,
//! read from a list of cost parameters.
//!
//! Each version lists its parameters in a fixed order: the parameters of
//! the built-ins and of the machine steps sorted by name, and, from the third
//! version on, the parameters of later built-ins after them in the order of
//! their introduction. A parameter that the list does not reach takes its
//! default value, so an empty list gives the default tables.

use vstd::prelude::*;

use crate::builtin::DefaultFunction;

use super::builtin_costs::BuiltinCost;
use super::costing::{
    AddedSizes, ConstantOrLinear, Costing, ExpModCost, LinearSize, MaxSize, MinSize, MultipliedSizes,
    OneArgument, QuadraticFunction, SixArguments, SubtractedSizes, ThreeArguments,
    TwoArguments, TwoArgumentsQuadraticFunction, TwoVariableLinearSize,
};
use super::ex_budget::ExBudget;

verus! {

/// The parameter at position `k` of `p`, or `d` where `p` is shorter.
pub open spec fn pv(p: Seq<i64>, k: int, d: i64) -> i64 {
    if 0 <= k < p.len() {
        p[k]
    } else {
        d
    }
}

/// The parameter at position `k` of `p`, or `d` where `p` is shorter.
pub fn param(p: &[i64], k: usize, d: i64) -> (r: i64)
    ensures
        r == pv(p@, k as int, d),
{
    if k < p.len() {
        p[k]
    } else {
        d
    }
}

/// The cost functions of `f` under the first version's parameters `p`.
pub open spec fn spec_entry_v1(p: Seq<i64>, f: DefaultFunction) -> BuiltinCost {
    match f {
        DefaultFunction::AddInteger => BuiltinCost::Two(Costing {
                mem: TwoArguments::MaxSize(MaxSize { intercept: pv(p, 2, 1), slope: pv(p, 3, 1) }),
                cpu: TwoArguments::MaxSize(MaxSize { intercept: pv(p, 0, 100788), slope: pv(p, 1, 420) }),
            }),
        DefaultFunction::SubtractInteger => BuiltinCost::Two(Costing {
                mem: TwoArguments::MaxSize(MaxSize { intercept: pv(p, 147, 1), slope: pv(p, 148, 1) }),
                cpu: TwoArguments::MaxSize(MaxSize { intercept: pv(p, 145, 100788), slope: pv(p, 146, 420) }),
            }),
        DefaultFunction::MultiplyInteger => BuiltinCost::Two(Costing {
                mem: TwoArguments::AddedSizes(AddedSizes { intercept: pv(p, 117, 0), slope: pv(p, 118, 1) }),
                cpu: TwoArguments::MultipliedSizes(MultipliedSizes { intercept: pv(p, 115, 90434), slope: pv(p, 116, 519) }),
            }),
        DefaultFunction::DivideInteger => BuiltinCost::Two(Costing {
                mem: TwoArguments::SubtractedSizes(SubtractedSizes { intercept: pv(p, 52, 0), slope: pv(p, 54, 1), minimum: pv(p, 53, 1) }),
                cpu: TwoArguments::ConstAboveDiagonalIntoMultipliedSizes(pv(p, 49, 85848), MultipliedSizes { intercept: pv(p, 50, 228465), slope: pv(p, 51, 122) }),
            }),
        DefaultFunction::QuotientInteger => BuiltinCost::Two(Costing {
                mem: TwoArguments::SubtractedSizes(SubtractedSizes { intercept: pv(p, 124, 0), slope: pv(p, 126, 1), minimum: pv(p, 125, 1) }),
                cpu: TwoArguments::ConstAboveDiagonalIntoMultipliedSizes(pv(p, 121, 85848), MultipliedSizes { intercept: pv(p, 122, 228465), slope: pv(p, 123, 122) }),
            }),
        DefaultFunction::RemainderInteger => BuiltinCost::Two(Costing {
                mem: TwoArguments::SubtractedSizes(SubtractedSizes { intercept: pv(p, 130, 0), slope: pv(p, 132, 1), minimum: pv(p, 131, 1) }),
                cpu: TwoArguments::ConstAboveDiagonalIntoMultipliedSizes(pv(p, 127, 85848), MultipliedSizes { intercept: pv(p, 128, 228465), slope: pv(p, 129, 122) }),
            }),
        DefaultFunction::ModInteger => BuiltinCost::Two(Costing {
                mem: TwoArguments::SubtractedSizes(SubtractedSizes { intercept: pv(p, 112, 0), slope: pv(p, 114, 1), minimum: pv(p, 113, 1) }),
                cpu: TwoArguments::ConstAboveDiagonalIntoMultipliedSizes(pv(p, 109, 85848), MultipliedSizes { intercept: pv(p, 110, 228465), slope: pv(p, 111, 122) }),
            }),
        DefaultFunction::EqualsInteger => BuiltinCost::Two(Costing {
                mem: TwoArguments::ConstantCost(pv(p, 68, 1)),
                cpu: TwoArguments::MinSize(MinSize { intercept: pv(p, 66, 51775), slope: pv(p, 67, 558) }),
            }),
        DefaultFunction::LessThanInteger => BuiltinCost::Two(Costing {
                mem: TwoArguments::ConstantCost(pv(p, 96, 1)),
                cpu: TwoArguments::MinSize(MinSize { intercept: pv(p, 94, 44749), slope: pv(p, 95, 541) }),
            }),
        DefaultFunction::LessThanEqualsInteger => BuiltinCost::Two(Costing {
                mem: TwoArguments::ConstantCost(pv(p, 93, 1)),
                cpu: TwoArguments::MinSize(MinSize { intercept: pv(p, 91, 43285), slope: pv(p, 92, 552) }),
            }),
        DefaultFunction::AppendByteString => BuiltinCost::Two(Costing {
                mem: TwoArguments::AddedSizes(AddedSizes { intercept: pv(p, 6, 0), slope: pv(p, 7, 1) }),
                cpu: TwoArguments::AddedSizes(AddedSizes { intercept: pv(p, 4, 1000), slope: pv(p, 5, 173) }),
            }),
        DefaultFunction::ConsByteString => BuiltinCost::Two(Costing {
                mem: TwoArguments::AddedSizes(AddedSizes { intercept: pv(p, 41, 0), slope: pv(p, 42, 1) }),
                cpu: TwoArguments::LinearInY(LinearSize { intercept: pv(p, 39, 72010), slope: pv(p, 40, 178) }),
            }),
        DefaultFunction::SliceByteString => BuiltinCost::Three(Costing {
                mem: ThreeArguments::LinearInZ(LinearSize { intercept: pv(p, 141, 4), slope: pv(p, 142, 0) }),
                cpu: ThreeArguments::LinearInZ(LinearSize { intercept: pv(p, 139, 20467), slope: pv(p, 140, 1) }),
            }),
        DefaultFunction::LengthOfByteString => BuiltinCost::One(Costing {
                mem: OneArgument::Constant(pv(p, 84, 10)),
                cpu: OneArgument::Constant(pv(p, 83, 22100)),
            }),
        DefaultFunction::IndexByteString => BuiltinCost::Two(Costing {
                mem: TwoArguments::ConstantCost(pv(p, 82, 4)),
                cpu: TwoArguments::ConstantCost(pv(p, 81, 13169)),
            }),
        DefaultFunction::EqualsByteString => BuiltinCost::Two(Costing {
                mem: TwoArguments::ConstantCost(pv(p, 62, 1)),
                cpu: TwoArguments::LinearOnDiagonal(ConstantOrLinear { constant: pv(p, 59, 24548), intercept: pv(p, 60, 29498), slope: pv(p, 61, 38) }),
            }),
        DefaultFunction::LessThanByteString => BuiltinCost::Two(Costing {
                mem: TwoArguments::ConstantCost(pv(p, 87, 1)),
                cpu: TwoArguments::MinSize(MinSize { intercept: pv(p, 85, 28999), slope: pv(p, 86, 74) }),
            }),
        DefaultFunction::LessThanEqualsByteString => BuiltinCost::Two(Costing {
                mem: TwoArguments::ConstantCost(pv(p, 90, 1)),
                cpu: TwoArguments::MinSize(MinSize { intercept: pv(p, 88, 28999), slope: pv(p, 89, 74) }),
            }),
        DefaultFunction::Sha2_256 => BuiltinCost::One(Costing {
                mem: OneArgument::Constant(pv(p, 135, 4)),
                cpu: OneArgument::Linear(LinearSize { intercept: pv(p, 133, 270652), slope: pv(p, 134, 22588) }),
            }),
        DefaultFunction::Sha3_256 => BuiltinCost::One(Costing {
                mem: OneArgument::Constant(pv(p, 138, 4)),
                cpu: OneArgument::Linear(LinearSize { intercept: pv(p, 136, 1457325), slope: pv(p, 137, 64566) }),
            }),
        DefaultFunction::Blake2b_256 => BuiltinCost::One(Costing {
                mem: OneArgument::Constant(pv(p, 16, 4)),
                cpu: OneArgument::Linear(LinearSize { intercept: pv(p, 14, 201305), slope: pv(p, 15, 8356) }),
            }),
        DefaultFunction::VerifyEd25519Signature => BuiltinCost::Three(Costing {
                mem: ThreeArguments::ConstantCost(pv(p, 165, 10)),
                cpu: ThreeArguments::LinearInY(LinearSize { intercept: pv(p, 163, 53384111), slope: pv(p, 164, 14333) }),
            }),
        DefaultFunction::AppendString => BuiltinCost::Two(Costing {
                mem: TwoArguments::AddedSizes(AddedSizes { intercept: pv(p, 10, 4), slope: pv(p, 11, 1) }),
                cpu: TwoArguments::AddedSizes(AddedSizes { intercept: pv(p, 8, 1000), slope: pv(p, 9, 59957) }),
            }),
        DefaultFunction::EqualsString => BuiltinCost::Two(Costing {
                mem: TwoArguments::ConstantCost(pv(p, 72, 1)),
                cpu: TwoArguments::LinearOnDiagonal(ConstantOrLinear { constant: pv(p, 69, 39184), intercept: pv(p, 70, 1000), slope: pv(p, 71, 60594) }),
            }),
        DefaultFunction::EncodeUtf8 => BuiltinCost::One(Costing {
                mem: OneArgument::Linear(LinearSize { intercept: pv(p, 57, 4), slope: pv(p, 58, 2) }),
                cpu: OneArgument::Linear(LinearSize { intercept: pv(p, 55, 1000), slope: pv(p, 56, 42921) }),
            }),
        DefaultFunction::DecodeUtf8 => BuiltinCost::One(Costing {
                mem: OneArgument::Linear(LinearSize { intercept: pv(p, 47, 4), slope: pv(p, 48, 2) }),
                cpu: OneArgument::Linear(LinearSize { intercept: pv(p, 45, 91189), slope: pv(p, 46, 769) }),
            }),
        DefaultFunction::IfThenElse => BuiltinCost::Three(Costing {
                mem: ThreeArguments::ConstantCost(pv(p, 80, 1)),
                cpu: ThreeArguments::ConstantCost(pv(p, 79, 76049)),
            }),
        DefaultFunction::ChooseUnit => BuiltinCost::Two(Costing {
                mem: TwoArguments::ConstantCost(pv(p, 38, 4)),
                cpu: TwoArguments::ConstantCost(pv(p, 37, 61462)),
            }),
        DefaultFunction::Trace => BuiltinCost::Two(Costing {
                mem: TwoArguments::ConstantCost(pv(p, 152, 32)),
                cpu: TwoArguments::ConstantCost(pv(p, 151, 59498)),
            }),
        DefaultFunction::FstPair => BuiltinCost::One(Costing {
                mem: OneArgument::Constant(pv(p, 74, 32)),
                cpu: OneArgument::Constant(pv(p, 73, 141895)),
            }),
        DefaultFunction::SndPair => BuiltinCost::One(Costing {
                mem: OneArgument::Constant(pv(p, 144, 32)),
                cpu: OneArgument::Constant(pv(p, 143, 141992)),
            }),
        DefaultFunction::ChooseList => BuiltinCost::Three(Costing {
                mem: ThreeArguments::ConstantCost(pv(p, 36, 32)),
                cpu: ThreeArguments::ConstantCost(pv(p, 35, 132994)),
            }),
        DefaultFunction::MkCons => BuiltinCost::Two(Costing {
                mem: TwoArguments::ConstantCost(pv(p, 102, 32)),
                cpu: TwoArguments::ConstantCost(pv(p, 101, 72362)),
            }),
        DefaultFunction::HeadList => BuiltinCost::One(Costing {
                mem: OneArgument::Constant(pv(p, 76, 32)),
                cpu: OneArgument::Constant(pv(p, 75, 83150)),
            }),
        DefaultFunction::TailList => BuiltinCost::One(Costing {
                mem: OneArgument::Constant(pv(p, 150, 32)),
                cpu: OneArgument::Constant(pv(p, 149, 81663)),
            }),
        DefaultFunction::NullList => BuiltinCost::One(Costing {
                mem: OneArgument::Constant(pv(p, 120, 32)),
                cpu: OneArgument::Constant(pv(p, 119, 74433)),
            }),
        DefaultFunction::ChooseData => BuiltinCost::Six(Costing {
                mem: SixArguments::ConstantCost(pv(p, 34, 32)),
                cpu: SixArguments::ConstantCost(pv(p, 33, 94375)),
            }),
        DefaultFunction::ConstrData => BuiltinCost::Two(Costing {
                mem: TwoArguments::ConstantCost(pv(p, 44, 32)),
                cpu: TwoArguments::ConstantCost(pv(p, 43, 22151)),
            }),
        DefaultFunction::MapData => BuiltinCost::One(Costing {
                mem: OneArgument::Constant(pv(p, 100, 32)),
                cpu: OneArgument::Constant(pv(p, 99, 68246)),
            }),
        DefaultFunction::ListData => BuiltinCost::One(Costing {
                mem: OneArgument::Constant(pv(p, 98, 32)),
                cpu: OneArgument::Constant(pv(p, 97, 33852)),
            }),
        DefaultFunction::IData => BuiltinCost::One(Costing {
                mem: OneArgument::Constant(pv(p, 78, 32)),
                cpu: OneArgument::Constant(pv(p, 77, 15299)),
            }),
        DefaultFunction::BData => BuiltinCost::One(Costing {
                mem: OneArgument::Constant(pv(p, 13, 32)),
                cpu: OneArgument::Constant(pv(p, 12, 11183)),
            }),
        DefaultFunction::UnConstrData => BuiltinCost::One(Costing {
                mem: OneArgument::Constant(pv(p, 156, 32)),
                cpu: OneArgument::Constant(pv(p, 155, 24588)),
            }),
        DefaultFunction::UnMapData => BuiltinCost::One(Costing {
                mem: OneArgument::Constant(pv(p, 162, 32)),
                cpu: OneArgument::Constant(pv(p, 161, 24623)),
            }),
        DefaultFunction::UnListData => BuiltinCost::One(Costing {
                mem: OneArgument::Constant(pv(p, 160, 32)),
                cpu: OneArgument::Constant(pv(p, 159, 25933)),
            }),
        DefaultFunction::UnIData => BuiltinCost::One(Costing {
                mem: OneArgument::Constant(pv(p, 158, 32)),
                cpu: OneArgument::Constant(pv(p, 157, 20744)),
            }),
        DefaultFunction::UnBData => BuiltinCost::One(Costing {
                mem: OneArgument::Constant(pv(p, 154, 32)),
                cpu: OneArgument::Constant(pv(p, 153, 20142)),
            }),
        DefaultFunction::EqualsData => BuiltinCost::Two(Costing {
                mem: TwoArguments::ConstantCost(pv(p, 65, 1)),
                cpu: TwoArguments::MinSize(MinSize { intercept: pv(p, 63, 898148), slope: pv(p, 64, 27279) }),
            }),
        DefaultFunction::MkPairData => BuiltinCost::Two(Costing {
                mem: TwoArguments::ConstantCost(pv(p, 108, 32)),
                cpu: TwoArguments::ConstantCost(pv(p, 107, 11546)),
            }),
        DefaultFunction::MkNilData => BuiltinCost::One(Costing {
                mem: OneArgument::Constant(pv(p, 104, 32)),
                cpu: OneArgument::Constant(pv(p, 103, 7243)),
            }),
        DefaultFunction::MkNilPairData => BuiltinCost::One(Costing {
                mem: OneArgument::Constant(pv(p, 106, 32)),
                cpu: OneArgument::Constant(pv(p, 105, 7391)),
            }),
        DefaultFunction::SerialiseData => BuiltinCost::One(Costing {
                mem: OneArgument::Linear(LinearSize { intercept: 0i64, slope: 2i64 }),
                cpu: OneArgument::Linear(LinearSize { intercept: 955506i64, slope: 213312i64 }),
            }),
        DefaultFunction::VerifyEcdsaSecp256k1Signature => BuiltinCost::Three(Costing {
                mem: ThreeArguments::ConstantCost(10i64),
                cpu: ThreeArguments::ConstantCost(43053543i64),
            }),
        DefaultFunction::VerifySchnorrSecp256k1Signature => BuiltinCost::Three(Costing {
                mem: ThreeArguments::ConstantCost(10i64),
                cpu: ThreeArguments::LinearInY(LinearSize { intercept: 43574283i64, slope: 26308i64 }),
            }),
        DefaultFunction::Bls12_381_G1_Add => BuiltinCost::Two(Costing {
                mem: TwoArguments::ConstantCost(18i64),
                cpu: TwoArguments::ConstantCost(962335i64),
            }),
        DefaultFunction::Bls12_381_G1_Neg => BuiltinCost::One(Costing {
                mem: OneArgument::Constant(18i64),
                cpu: OneArgument::Constant(267929i64),
            }),
        DefaultFunction::Bls12_381_G1_ScalarMul => BuiltinCost::Two(Costing {
                mem: TwoArguments::ConstantCost(18i64),
                cpu: TwoArguments::LinearInX(LinearSize { intercept: 76433006i64, slope: 8868i64 }),
            }),
        DefaultFunction::Bls12_381_G1_Equal => BuiltinCost::Two(Costing {
                mem: TwoArguments::ConstantCost(1i64),
                cpu: TwoArguments::ConstantCost(442008i64),
            }),
        DefaultFunction::Bls12_381_G1_Compress => BuiltinCost::One(Costing {
                mem: OneArgument::Constant(6i64),
                cpu: OneArgument::Constant(2780678i64),
            }),
        DefaultFunction::Bls12_381_G1_Uncompress => BuiltinCost::One(Costing {
                mem: OneArgument::Constant(18i64),
                cpu: OneArgument::Constant(52948122i64),
            }),
        DefaultFunction::Bls12_381_G1_HashToGroup => BuiltinCost::Two(Costing {
                mem: TwoArguments::ConstantCost(18i64),
                cpu: TwoArguments::LinearInX(LinearSize { intercept: 52538055i64, slope: 3756i64 }),
            }),
        DefaultFunction::Bls12_381_G2_Add => BuiltinCost::Two(Costing {
                mem: TwoArguments::ConstantCost(36i64),
                cpu: TwoArguments::ConstantCost(1995836i64),
            }),
        DefaultFunction::Bls12_381_G2_Neg => BuiltinCost::One(Costing {
                mem: OneArgument::Constant(36i64),
                cpu: OneArgument::Constant(284546i64),
            }),
        DefaultFunction::Bls12_381_G2_ScalarMul => BuiltinCost::Two(Costing {
                mem: TwoArguments::ConstantCost(36i64),
                cpu: TwoArguments::LinearInX(LinearSize { intercept: 158221314i64, slope: 26549i64 }),
            }),
        DefaultFunction::Bls12_381_G2_Equal => BuiltinCost::Two(Costing {
                mem: TwoArguments::ConstantCost(1i64),
                cpu: TwoArguments::ConstantCost(901022i64),
            }),
        DefaultFunction::Bls12_381_G2_Compress => BuiltinCost::One(Costing {
                mem: OneArgument::Constant(12i64),
                cpu: OneArgument::Constant(3227919i64),
            }),
        DefaultFunction::Bls12_381_G2_Uncompress => BuiltinCost::One(Costing {
                mem: OneArgument::Constant(36i64),
                cpu: OneArgument::Constant(74698472i64),
            }),
        DefaultFunction::Bls12_381_G2_HashToGroup => BuiltinCost::Two(Costing {
                mem: TwoArguments::ConstantCost(36i64),
                cpu: TwoArguments::LinearInX(LinearSize { intercept: 166917843i64, slope: 4307i64 }),
            }),
        DefaultFunction::Bls12_381_MillerLoop => BuiltinCost::Two(Costing {
                mem: TwoArguments::ConstantCost(72i64),
                cpu: TwoArguments::ConstantCost(254006273i64),
            }),
        DefaultFunction::Bls12_381_MulMlResult => BuiltinCost::Two(Costing {
                mem: TwoArguments::ConstantCost(72i64),
                cpu: TwoArguments::ConstantCost(2174038i64),
            }),
        DefaultFunction::Bls12_381_FinalVerify => BuiltinCost::Two(Costing {
                mem: TwoArguments::ConstantCost(1i64),
                cpu: TwoArguments::ConstantCost(333849714i64),
            }),
        DefaultFunction::Keccak_256 => BuiltinCost::One(Costing {
                mem: OneArgument::Constant(4i64),
                cpu: OneArgument::Linear(LinearSize { intercept: 2261318i64, slope: 64571i64 }),
            }),
        DefaultFunction::Blake2b_224 => BuiltinCost::One(Costing {
                mem: OneArgument::Constant(4i64),
                cpu: OneArgument::Linear(LinearSize { intercept: 207616i64, slope: 8310i64 }),
            }),
        DefaultFunction::IntegerToByteString => BuiltinCost::Three(Costing {
                mem: ThreeArguments::LiteralInYorLinearInZ(LinearSize { intercept: 0i64, slope: 1i64 }),
                cpu: ThreeArguments::QuadraticInZ(QuadraticFunction { coeff_0: 1293828i64, coeff_1: 28716i64, coeff_2: 63i64 }),
            }),
        DefaultFunction::ByteStringToInteger => BuiltinCost::Two(Costing {
                mem: TwoArguments::LinearInY(LinearSize { intercept: 0i64, slope: 1i64 }),
                cpu: TwoArguments::QuadraticInY(QuadraticFunction { coeff_0: 1006041i64, coeff_1: 43623i64, coeff_2: 251i64 }),
            }),
        DefaultFunction::AndByteString => BuiltinCost::Three(Costing {
                mem: ThreeArguments::LinearInMaxYZ(LinearSize { intercept: 0i64, slope: 1i64 }),
                cpu: ThreeArguments::LinearInYAndZ(TwoVariableLinearSize { intercept: 100181i64, slope1: 726i64, slope2: 719i64 }),
            }),
        DefaultFunction::OrByteString => BuiltinCost::Three(Costing {
                mem: ThreeArguments::LinearInMaxYZ(LinearSize { intercept: 0i64, slope: 1i64 }),
                cpu: ThreeArguments::LinearInYAndZ(TwoVariableLinearSize { intercept: 100181i64, slope1: 726i64, slope2: 719i64 }),
            }),
        DefaultFunction::XorByteString => BuiltinCost::Three(Costing {
                mem: ThreeArguments::LinearInMaxYZ(LinearSize { intercept: 0i64, slope: 1i64 }),
                cpu: ThreeArguments::LinearInYAndZ(TwoVariableLinearSize { intercept: 100181i64, slope1: 726i64, slope2: 719i64 }),
            }),
        DefaultFunction::ComplementByteString => BuiltinCost::One(Costing {
                mem: OneArgument::Linear(LinearSize { intercept: 0i64, slope: 1i64 }),
                cpu: OneArgument::Linear(LinearSize { intercept: 107878i64, slope: 680i64 }),
            }),
        DefaultFunction::ReadBit => BuiltinCost::Two(Costing {
                mem: TwoArguments::ConstantCost(1i64),
                cpu: TwoArguments::ConstantCost(95336i64),
            }),
        DefaultFunction::WriteBits => BuiltinCost::Three(Costing {
                mem: ThreeArguments::LinearInX(LinearSize { intercept: 0i64, slope: 1i64 }),
                cpu: ThreeArguments::LinearInY(LinearSize { intercept: 281145i64, slope: 18848i64 }),
            }),
        DefaultFunction::ReplicateByte => BuiltinCost::Two(Costing {
                mem: TwoArguments::LinearInX(LinearSize { intercept: 1i64, slope: 1i64 }),
                cpu: TwoArguments::LinearInX(LinearSize { intercept: 180194i64, slope: 159i64 }),
            }),
        DefaultFunction::ShiftByteString => BuiltinCost::Two(Costing {
                mem: TwoArguments::LinearInX(LinearSize { intercept: 0i64, slope: 1i64 }),
                cpu: TwoArguments::LinearInX(LinearSize { intercept: 158519i64, slope: 8942i64 }),
            }),
        DefaultFunction::RotateByteString => BuiltinCost::Two(Costing {
                mem: TwoArguments::LinearInX(LinearSize { intercept: 0i64, slope: 1i64 }),
                cpu: TwoArguments::LinearInX(LinearSize { intercept: 159378i64, slope: 8813i64 }),
            }),
        DefaultFunction::CountSetBits => BuiltinCost::One(Costing {
                mem: OneArgument::Constant(1i64),
                cpu: OneArgument::Linear(LinearSize { intercept: 107490i64, slope: 3298i64 }),
            }),
        DefaultFunction::FindFirstSetBit => BuiltinCost::One(Costing {
                mem: OneArgument::Constant(1i64),
                cpu: OneArgument::Linear(LinearSize { intercept: 106057i64, slope: 655i64 }),
            }),
        DefaultFunction::Ripemd_160 => BuiltinCost::One(Costing {
                mem: OneArgument::Constant(3i64),
                cpu: OneArgument::Linear(LinearSize { intercept: 1964219i64, slope: 24520i64 }),
            }),
        DefaultFunction::ExpModInteger => BuiltinCost::Three(Costing {
                mem: ThreeArguments::LinearInZ(LinearSize { intercept: 0i64, slope: 1i64 }),
                cpu: ThreeArguments::ExpModCost(ExpModCost { coeff_00: 607153i64, coeff_11: 231697i64, coeff_12: 53144i64 }),
            }),
        DefaultFunction::DropList => BuiltinCost::Two(Costing {
                mem: TwoArguments::ConstantCost(4i64),
                cpu: TwoArguments::LinearInX(LinearSize { intercept: 116711i64, slope: 1957i64 }),
            }),
        DefaultFunction::LengthOfArray => BuiltinCost::One(Costing {
                mem: OneArgument::Constant(10i64),
                cpu: OneArgument::Constant(231883i64),
            }),
        DefaultFunction::ListToArray => BuiltinCost::One(Costing {
                mem: OneArgument::Linear(LinearSize { intercept: 7i64, slope: 1i64 }),
                cpu: OneArgument::Linear(LinearSize { intercept: 1000i64, slope: 24838i64 }),
            }),
        DefaultFunction::IndexArray => BuiltinCost::Two(Costing {
                mem: TwoArguments::ConstantCost(32i64),
                cpu: TwoArguments::ConstantCost(232010i64),
            }),
    }
}

/// The cost functions of `f` under the first version's parameters `p`.
#[verifier::rlimit(50)]
pub fn entry_v1(p: &[i64], f: DefaultFunction) -> (r: BuiltinCost)
    ensures
        r == spec_entry_v1(p@, f),
{
    match f {
        DefaultFunction::AddInteger => BuiltinCost::Two(Costing {
                mem: TwoArguments::MaxSize(MaxSize { intercept: param(p, 2, 1), slope: param(p, 3, 1) }),
                cpu: TwoArguments::MaxSize(MaxSize { intercept: param(p, 0, 100788), slope: param(p, 1, 420) }),
            }),
        DefaultFunction::SubtractInteger => BuiltinCost::Two(Costing {
                mem: TwoArguments::MaxSize(MaxSize { intercept: param(p, 147, 1), slope: param(p, 148, 1) }),
                cpu: TwoArguments::MaxSize(MaxSize { intercept: param(p, 145, 100788), slope: param(p, 146, 420) }),
            }),
        DefaultFunction::MultiplyInteger => BuiltinCost::Two(Costing {
                mem: TwoArguments::AddedSizes(AddedSizes { intercept: param(p, 117, 0), slope: param(p, 118, 1) }),
                cpu: TwoArguments::MultipliedSizes(MultipliedSizes { intercept: param(p, 115, 90434), slope: param(p, 116, 519) }),
            }),
        DefaultFunction::DivideInteger => BuiltinCost::Two(Costing {
                mem: TwoArguments::SubtractedSizes(SubtractedSizes { intercept: param(p, 52, 0), slope: param(p, 54, 1), minimum: param(p, 53, 1) }),
                cpu: TwoArguments::ConstAboveDiagonalIntoMultipliedSizes(param(p, 49, 85848), MultipliedSizes { intercept: param(p, 50, 228465), slope: param(p, 51, 122) }),
            }),
        DefaultFunction::QuotientInteger => BuiltinCost::Two(Costing {
                mem: TwoArguments::SubtractedSizes(SubtractedSizes { intercept: param(p, 124, 0), slope: param(p, 126, 1), minimum: param(p, 125, 1) }),
                cpu: TwoArguments::ConstAboveDiagonalIntoMultipliedSizes(param(p, 121, 85848), MultipliedSizes { intercept: param(p, 122, 228465), slope: param(p, 123, 122) }),
            }),
        DefaultFunction::RemainderInteger => BuiltinCost::Two(Costing {
                mem: TwoArguments::SubtractedSizes(SubtractedSizes { intercept: param(p, 130, 0), slope: param(p, 132, 1), minimum: param(p, 131, 1) }),
                cpu: TwoArguments::ConstAboveDiagonalIntoMultipliedSizes(param(p, 127, 85848), MultipliedSizes { intercept: param(p, 128, 228465), slope: param(p, 129, 122) }),
            }),
        DefaultFunction::ModInteger => BuiltinCost::Two(Costing {
                mem: TwoArguments::SubtractedSizes(SubtractedSizes { intercept: param(p, 112, 0), slope: param(p, 114, 1), minimum: param(p, 113, 1) }),
                cpu: TwoArguments::ConstAboveDiagonalIntoMultipliedSizes(param(p, 109, 85848), MultipliedSizes { intercept: param(p, 110, 228465), slope: param(p, 111, 122) }),
            }),
        DefaultFunction::EqualsInteger => BuiltinCost::Two(Costing {
                mem: TwoArguments::ConstantCost(param(p, 68, 1)),
                cpu: TwoArguments::MinSize(MinSize { intercept: param(p, 66, 51775), slope: param(p, 67, 558) }),
            }),
        DefaultFunction::LessThanInteger => BuiltinCost::Two(Costing {
                mem: TwoArguments::ConstantCost(param(p, 96, 1)),
                cpu: TwoArguments::MinSize(MinSize { intercept: param(p, 94, 44749), slope: param(p, 95, 541) }),
            }),
        DefaultFunction::LessThanEqualsInteger => BuiltinCost::Two(Costing {
                mem: TwoArguments::ConstantCost(param(p, 93, 1)),
                cpu: TwoArguments::MinSize(MinSize { intercept: param(p, 91, 43285), slope: param(p, 92, 552) }),
            }),
        DefaultFunction::AppendByteString => BuiltinCost::Two(Costing {
                mem: TwoArguments::AddedSizes(AddedSizes { intercept: param(p, 6, 0), slope: param(p, 7, 1) }),
                cpu: TwoArguments::AddedSizes(AddedSizes { intercept: param(p, 4, 1000), slope: param(p, 5, 173) }),
            }),
        DefaultFunction::ConsByteString => BuiltinCost::Two(Costing {
                mem: TwoArguments::AddedSizes(AddedSizes { intercept: param(p, 41, 0), slope: param(p, 42, 1) }),
                cpu: TwoArguments::LinearInY(LinearSize { intercept: param(p, 39, 72010), slope: param(p, 40, 178) }),
            }),
        DefaultFunction::SliceByteString => BuiltinCost::Three(Costing {
                mem: ThreeArguments::LinearInZ(LinearSize { intercept: param(p, 141, 4), slope: param(p, 142, 0) }),
                cpu: ThreeArguments::LinearInZ(LinearSize { intercept: param(p, 139, 20467), slope: param(p, 140, 1) }),
            }),
        DefaultFunction::LengthOfByteString => BuiltinCost::One(Costing {
                mem: OneArgument::Constant(param(p, 84, 10)),
                cpu: OneArgument::Constant(param(p, 83, 22100)),
            }),
        DefaultFunction::IndexByteString => BuiltinCost::Two(Costing {
                mem: TwoArguments::ConstantCost(param(p, 82, 4)),
                cpu: TwoArguments::ConstantCost(param(p, 81, 13169)),
            }),
        DefaultFunction::EqualsByteString => BuiltinCost::Two(Costing {
                mem: TwoArguments::ConstantCost(param(p, 62, 1)),
                cpu: TwoArguments::LinearOnDiagonal(ConstantOrLinear { constant: param(p, 59, 24548), intercept: param(p, 60, 29498), slope: param(p, 61, 38) }),
            }),
        DefaultFunction::LessThanByteString => BuiltinCost::Two(Costing {
                mem: TwoArguments::ConstantCost(param(p, 87, 1)),
                cpu: TwoArguments::MinSize(MinSize { intercept: param(p, 85, 28999), slope: param(p, 86, 74) }),
            }),
        DefaultFunction::LessThanEqualsByteString => BuiltinCost::Two(Costing {
                mem: TwoArguments::ConstantCost(param(p, 90, 1)),
                cpu: TwoArguments::MinSize(MinSize { intercept: param(p, 88, 28999), slope: param(p, 89, 74) }),
            }),
        DefaultFunction::Sha2_256 => BuiltinCost::One(Costing {
                mem: OneArgument::Constant(param(p, 135, 4)),
                cpu: OneArgument::Linear(LinearSize { intercept: param(p, 133, 270652), slope: param(p, 134, 22588) }),
            }),
        DefaultFunction::Sha3_256 => BuiltinCost::One(Costing {
                mem: OneArgument::Constant(param(p, 138, 4)),
                cpu: OneArgument::Linear(LinearSize { intercept: param(p, 136, 1457325), slope: param(p, 137, 64566) }),
            }),
        DefaultFunction::Blake2b_256 => BuiltinCost::One(Costing {
                mem: OneArgument::Constant(param(p, 16, 4)),
                cpu: OneArgument::Linear(LinearSize { intercept: param(p, 14, 201305), slope: param(p, 15, 8356) }),
            }),
        DefaultFunction::VerifyEd25519Signature => BuiltinCost::Three(Costing {
                mem: ThreeArguments::ConstantCost(param(p, 165, 10)),
                cpu: ThreeArguments::LinearInY(LinearSize { intercept: param(p, 163, 53384111), slope: param(p, 164, 14333) }),
            }),
        DefaultFunction::AppendString => BuiltinCost::Two(Costing {
                mem: TwoArguments::AddedSizes(AddedSizes { intercept: param(p, 10, 4), slope: param(p, 11, 1) }),
                cpu: TwoArguments::AddedSizes(AddedSizes { intercept: param(p, 8, 1000), slope: param(p, 9, 59957) }),
            }),
        DefaultFunction::EqualsString => BuiltinCost::Two(Costing {
                mem: TwoArguments::ConstantCost(param(p, 72, 1)),
                cpu: TwoArguments::LinearOnDiagonal(ConstantOrLinear { constant: param(p, 69, 39184), intercept: param(p, 70, 1000), slope: param(p, 71, 60594) }),
            }),
        DefaultFunction::EncodeUtf8 => BuiltinCost::One(Costing {
                mem: OneArgument::Linear(LinearSize { intercept: param(p, 57, 4), slope: param(p, 58, 2) }),
                cpu: OneArgument::Linear(LinearSize { intercept: param(p, 55, 1000), slope: param(p, 56, 42921) }),
            }),
        DefaultFunction::DecodeUtf8 => BuiltinCost::One(Costing {
                mem: OneArgument::Linear(LinearSize { intercept: param(p, 47, 4), slope: param(p, 48, 2) }),
                cpu: OneArgument::Linear(LinearSize { intercept: param(p, 45, 91189), slope: param(p, 46, 769) }),
            }),
        DefaultFunction::IfThenElse => BuiltinCost::Three(Costing {
                mem: ThreeArguments::ConstantCost(param(p, 80, 1)),
                cpu: ThreeArguments::ConstantCost(param(p, 79, 76049)),
            }),
        DefaultFunction::ChooseUnit => BuiltinCost::Two(Costing {
                mem: TwoArguments::ConstantCost(param(p, 38, 4)),
                cpu: TwoArguments::ConstantCost(param(p, 37, 61462)),
            }),
        DefaultFunction::Trace => BuiltinCost::Two(Costing {
                mem: TwoArguments::ConstantCost(param(p, 152, 32)),
                cpu: TwoArguments::ConstantCost(param(p, 151, 59498)),
            }),
        DefaultFunction::FstPair => BuiltinCost::One(Costing {
                mem: OneArgument::Constant(param(p, 74, 32)),
                cpu: OneArgument::Constant(param(p, 73, 141895)),
            }),
        DefaultFunction::SndPair => BuiltinCost::One(Costing {
                mem: OneArgument::Constant(param(p, 144, 32)),
                cpu: OneArgument::Constant(param(p, 143, 141992)),
            }),
        DefaultFunction::ChooseList => BuiltinCost::Three(Costing {
                mem: ThreeArguments::ConstantCost(param(p, 36, 32)),
                cpu: ThreeArguments::ConstantCost(param(p, 35, 132994)),
            }),
        DefaultFunction::MkCons => BuiltinCost::Two(Costing {
                mem: TwoArguments::ConstantCost(param(p, 102, 32)),
                cpu: TwoArguments::ConstantCost(param(p, 101, 72362)),
            }),
        DefaultFunction::HeadList => BuiltinCost::One(Costing {
                mem: OneArgument::Constant(param(p, 76, 32)),
                cpu: OneArgument::Constant(param(p, 75, 83150)),
            }),
        DefaultFunction::TailList => BuiltinCost::One(Costing {
                mem: OneArgument::Constant(param(p, 150, 32)),
                cpu: OneArgument::Constant(param(p, 149, 81663)),
            }),
        DefaultFunction::NullList => BuiltinCost::One(Costing {
                mem: OneArgument::Constant(param(p, 120, 32)),
                cpu: OneArgument::Constant(param(p, 119, 74433)),
            }),
        DefaultFunction::ChooseData => BuiltinCost::Six(Costing {
                mem: SixArguments::ConstantCost(param(p, 34, 32)),
                cpu: SixArguments::ConstantCost(param(p, 33, 94375)),
            }),
        DefaultFunction::ConstrData => BuiltinCost::Two(Costing {
                mem: TwoArguments::ConstantCost(param(p, 44, 32)),
                cpu: TwoArguments::ConstantCost(param(p, 43, 22151)),
            }),
        DefaultFunction::MapData => BuiltinCost::One(Costing {
                mem: OneArgument::Constant(param(p, 100, 32)),
                cpu: OneArgument::Constant(param(p, 99, 68246)),
            }),
        DefaultFunction::ListData => BuiltinCost::One(Costing {
                mem: OneArgument::Constant(param(p, 98, 32)),
                cpu: OneArgument::Constant(param(p, 97, 33852)),
            }),
        DefaultFunction::IData => BuiltinCost::One(Costing {
                mem: OneArgument::Constant(param(p, 78, 32)),
                cpu: OneArgument::Constant(param(p, 77, 15299)),
            }),
        DefaultFunction::BData => BuiltinCost::One(Costing {
                mem: OneArgument::Constant(param(p, 13, 32)),
                cpu: OneArgument::Constant(param(p, 12, 11183)),
            }),
        DefaultFunction::UnConstrData => BuiltinCost::One(Costing {
                mem: OneArgument::Constant(param(p, 156, 32)),
                cpu: OneArgument::Constant(param(p, 155, 24588)),
            }),
        DefaultFunction::UnMapData => BuiltinCost::One(Costing {
                mem: OneArgument::Constant(param(p, 162, 32)),
                cpu: OneArgument::Constant(param(p, 161, 24623)),
            }),
        DefaultFunction::UnListData => BuiltinCost::One(Costing {
                mem: OneArgument::Constant(param(p, 160, 32)),
                cpu: OneArgument::Constant(param(p, 159, 25933)),
            }),
        DefaultFunction::UnIData => BuiltinCost::One(Costing {
                mem: OneArgument::Constant(param(p, 158, 32)),
                cpu: OneArgument::Constant(param(p, 157, 20744)),
            }),
        DefaultFunction::UnBData => BuiltinCost::One(Costing {
                mem: OneArgument::Constant(param(p, 154, 32)),
                cpu: OneArgument::Constant(param(p, 153, 20142)),
            }),
        DefaultFunction::EqualsData => BuiltinCost::Two(Costing {
                mem: TwoArguments::ConstantCost(param(p, 65, 1)),
                cpu: TwoArguments::MinSize(MinSize { intercept: param(p, 63, 898148), slope: param(p, 64, 27279) }),
            }),
        DefaultFunction::MkPairData => BuiltinCost::Two(Costing {
                mem: TwoArguments::ConstantCost(param(p, 108, 32)),
                cpu: TwoArguments::ConstantCost(param(p, 107, 11546)),
            }),
        DefaultFunction::MkNilData => BuiltinCost::One(Costing {
                mem: OneArgument::Constant(param(p, 104, 32)),
                cpu: OneArgument::Constant(param(p, 103, 7243)),
            }),
        DefaultFunction::MkNilPairData => BuiltinCost::One(Costing {
                mem: OneArgument::Constant(param(p, 106, 32)),
                cpu: OneArgument::Constant(param(p, 105, 7391)),
            }),
        DefaultFunction::SerialiseData => BuiltinCost::One(Costing {
                mem: OneArgument::Linear(LinearSize { intercept: 0i64, slope: 2i64 }),
                cpu: OneArgument::Linear(LinearSize { intercept: 955506i64, slope: 213312i64 }),
            }),
        DefaultFunction::VerifyEcdsaSecp256k1Signature => BuiltinCost::Three(Costing {
                mem: ThreeArguments::ConstantCost(10i64),
                cpu: ThreeArguments::ConstantCost(43053543i64),
            }),
        DefaultFunction::VerifySchnorrSecp256k1Signature => BuiltinCost::Three(Costing {
                mem: ThreeArguments::ConstantCost(10i64),
                cpu: ThreeArguments::LinearInY(LinearSize { intercept: 43574283i64, slope: 26308i64 }),
            }),
        DefaultFunction::Bls12_381_G1_Add => BuiltinCost::Two(Costing {
                mem: TwoArguments::ConstantCost(18i64),
                cpu: TwoArguments::ConstantCost(962335i64),
            }),
        DefaultFunction::Bls12_381_G1_Neg => BuiltinCost::One(Costing {
                mem: OneArgument::Constant(18i64),
                cpu: OneArgument::Constant(267929i64),
            }),
        DefaultFunction::Bls12_381_G1_ScalarMul => BuiltinCost::Two(Costing {
                mem: TwoArguments::ConstantCost(18i64),
                cpu: TwoArguments::LinearInX(LinearSize { intercept: 76433006i64, slope: 8868i64 }),
            }),
        DefaultFunction::Bls12_381_G1_Equal => BuiltinCost::Two(Costing {
                mem: TwoArguments::ConstantCost(1i64),
                cpu: TwoArguments::ConstantCost(442008i64),
            }),
        DefaultFunction::Bls12_381_G1_Compress => BuiltinCost::One(Costing {
                mem: OneArgument::Constant(6i64),
                cpu: OneArgument::Constant(2780678i64),
            }),
        DefaultFunction::Bls12_381_G1_Uncompress => BuiltinCost::One(Costing {
                mem: OneArgument::Constant(18i64),
                cpu: OneArgument::Constant(52948122i64),
            }),
        DefaultFunction::Bls12_381_G1_HashToGroup => BuiltinCost::Two(Costing {
                mem: TwoArguments::ConstantCost(18i64),
                cpu: TwoArguments::LinearInX(LinearSize { intercept: 52538055i64, slope: 3756i64 }),
            }),
        DefaultFunction::Bls12_381_G2_Add => BuiltinCost::Two(Costing {
                mem: TwoArguments::ConstantCost(36i64),
                cpu: TwoArguments::ConstantCost(1995836i64),
            }),
        DefaultFunction::Bls12_381_G2_Neg => BuiltinCost::One(Costing {
                mem: OneArgument::Constant(36i64),
                cpu: OneArgument::Constant(284546i64),
            }),
        DefaultFunction::Bls12_381_G2_ScalarMul => BuiltinCost::Two(Costing {
                mem: TwoArguments::ConstantCost(36i64),
                cpu: TwoArguments::LinearInX(LinearSize { intercept: 158221314i64, slope: 26549i64 }),
            }),
        DefaultFunction::Bls12_381_G2_Equal => BuiltinCost::Two(Costing {
                mem: TwoArguments::ConstantCost(1i64),
                cpu: TwoArguments::ConstantCost(901022i64),
            }),
        DefaultFunction::Bls12_381_G2_Compress => BuiltinCost::One(Costing {
                mem: OneArgument::Constant(12i64),
                cpu: OneArgument::Constant(3227919i64),
            }),
        DefaultFunction::Bls12_381_G2_Uncompress => BuiltinCost::One(Costing {
                mem: OneArgument::Constant(36i64),
                cpu: OneArgument::Constant(74698472i64),
            }),
        DefaultFunction::Bls12_381_G2_HashToGroup => BuiltinCost::Two(Costing {
                mem: TwoArguments::ConstantCost(36i64),
                cpu: TwoArguments::LinearInX(LinearSize { intercept: 166917843i64, slope: 4307i64 }),
            }),
        DefaultFunction::Bls12_381_MillerLoop => BuiltinCost::Two(Costing {
                mem: TwoArguments::ConstantCost(72i64),
                cpu: TwoArguments::ConstantCost(254006273i64),
            }),
        DefaultFunction::Bls12_381_MulMlResult => BuiltinCost::Two(Costing {
                mem: TwoArguments::ConstantCost(72i64),
                cpu: TwoArguments::ConstantCost(2174038i64),
            }),
        DefaultFunction::Bls12_381_FinalVerify => BuiltinCost::Two(Costing {
                mem: TwoArguments::ConstantCost(1i64),
                cpu: TwoArguments::ConstantCost(333849714i64),
            }),
        DefaultFunction::Keccak_256 => BuiltinCost::One(Costing {
                mem: OneArgument::Constant(4i64),
                cpu: OneArgument::Linear(LinearSize { intercept: 2261318i64, slope: 64571i64 }),
            }),
        DefaultFunction::Blake2b_224 => BuiltinCost::One(Costing {
                mem: OneArgument::Constant(4i64),
                cpu: OneArgument::Linear(LinearSize { intercept: 207616i64, slope: 8310i64 }),
            }),
        DefaultFunction::IntegerToByteString => BuiltinCost::Three(Costing {
                mem: ThreeArguments::LiteralInYorLinearInZ(LinearSize { intercept: 0i64, slope: 1i64 }),
                cpu: ThreeArguments::QuadraticInZ(QuadraticFunction { coeff_0: 1293828i64, coeff_1: 28716i64, coeff_2: 63i64 }),
            }),
        DefaultFunction::ByteStringToInteger => BuiltinCost::Two(Costing {
                mem: TwoArguments::LinearInY(LinearSize { intercept: 0i64, slope: 1i64 }),
                cpu: TwoArguments::QuadraticInY(QuadraticFunction { coeff_0: 1006041i64, coeff_1: 43623i64, coeff_2: 251i64 }),
            }),
        DefaultFunction::AndByteString => BuiltinCost::Three(Costing {
                mem: ThreeArguments::LinearInMaxYZ(LinearSize { intercept: 0i64, slope: 1i64 }),
                cpu: ThreeArguments::LinearInYAndZ(TwoVariableLinearSize { intercept: 100181i64, slope1: 726i64, slope2: 719i64 }),
            }),
        DefaultFunction::OrByteString => BuiltinCost::Three(Costing {
                mem: ThreeArguments::LinearInMaxYZ(LinearSize { intercept: 0i64, slope: 1i64 }),
                cpu: ThreeArguments::LinearInYAndZ(TwoVariableLinearSize { intercept: 100181i64, slope1: 726i64, slope2: 719i64 }),
            }),
        DefaultFunction::XorByteString => BuiltinCost::Three(Costing {
                mem: ThreeArguments::LinearInMaxYZ(LinearSize { intercept: 0i64, slope: 1i64 }),
                cpu: ThreeArguments::LinearInYAndZ(TwoVariableLinearSize { intercept: 100181i64, slope1: 726i64, slope2: 719i64 }),
            }),
        DefaultFunction::ComplementByteString => BuiltinCost::One(Costing {
                mem: OneArgument::Linear(LinearSize { intercept: 0i64, slope: 1i64 }),
                cpu: OneArgument::Linear(LinearSize { intercept: 107878i64, slope: 680i64 }),
            }),
        DefaultFunction::ReadBit => BuiltinCost::Two(Costing {
                mem: TwoArguments::ConstantCost(1i64),
                cpu: TwoArguments::ConstantCost(95336i64),
            }),
        DefaultFunction::WriteBits => BuiltinCost::Three(Costing {
                mem: ThreeArguments::LinearInX(LinearSize { intercept: 0i64, slope: 1i64 }),
                cpu: ThreeArguments::LinearInY(LinearSize { intercept: 281145i64, slope: 18848i64 }),
            }),
        DefaultFunction::ReplicateByte => BuiltinCost::Two(Costing {
                mem: TwoArguments::LinearInX(LinearSize { intercept: 1i64, slope: 1i64 }),
                cpu: TwoArguments::LinearInX(LinearSize { intercept: 180194i64, slope: 159i64 }),
            }),
        DefaultFunction::ShiftByteString => BuiltinCost::Two(Costing {
                mem: TwoArguments::LinearInX(LinearSize { intercept: 0i64, slope: 1i64 }),
                cpu: TwoArguments::LinearInX(LinearSize { intercept: 158519i64, slope: 8942i64 }),
            }),
        DefaultFunction::RotateByteString => BuiltinCost::Two(Costing {
                mem: TwoArguments::LinearInX(LinearSize { intercept: 0i64, slope: 1i64 }),
                cpu: TwoArguments::LinearInX(LinearSize { intercept: 159378i64, slope: 8813i64 }),
            }),
        DefaultFunction::CountSetBits => BuiltinCost::One(Costing {
                mem: OneArgument::Constant(1i64),
                cpu: OneArgument::Linear(LinearSize { intercept: 107490i64, slope: 3298i64 }),
            }),
        DefaultFunction::FindFirstSetBit => BuiltinCost::One(Costing {
                mem: OneArgument::Constant(1i64),
                cpu: OneArgument::Linear(LinearSize { intercept: 106057i64, slope: 655i64 }),
            }),
        DefaultFunction::Ripemd_160 => BuiltinCost::One(Costing {
                mem: OneArgument::Constant(3i64),
                cpu: OneArgument::Linear(LinearSize { intercept: 1964219i64, slope: 24520i64 }),
            }),
        DefaultFunction::ExpModInteger => BuiltinCost::Three(Costing {
                mem: ThreeArguments::LinearInZ(LinearSize { intercept: 0i64, slope: 1i64 }),
                cpu: ThreeArguments::ExpModCost(ExpModCost { coeff_00: 607153i64, coeff_11: 231697i64, coeff_12: 53144i64 }),
            }),
        DefaultFunction::DropList => BuiltinCost::Two(Costing {
                mem: TwoArguments::ConstantCost(4i64),
                cpu: TwoArguments::LinearInX(LinearSize { intercept: 116711i64, slope: 1957i64 }),
            }),
        DefaultFunction::LengthOfArray => BuiltinCost::One(Costing {
                mem: OneArgument::Constant(10i64),
                cpu: OneArgument::Constant(231883i64),
            }),
        DefaultFunction::ListToArray => BuiltinCost::One(Costing {
                mem: OneArgument::Linear(LinearSize { intercept: 7i64, slope: 1i64 }),
                cpu: OneArgument::Linear(LinearSize { intercept: 1000i64, slope: 24838i64 }),
            }),
        DefaultFunction::IndexArray => BuiltinCost::Two(Costing {
                mem: TwoArguments::ConstantCost(32i64),
                cpu: TwoArguments::ConstantCost(232010i64),
            }),
    }
}

/// The cost functions of `f` under the second version's parameters `p`.
pub open spec fn spec_entry_v2(p: Seq<i64>, f: DefaultFunction) -> BuiltinCost {
    match f {
        DefaultFunction::AddInteger => BuiltinCost::Two(Costing {
                mem: TwoArguments::MaxSize(MaxSize { intercept: pv(p, 2, 1), slope: pv(p, 3, 1) }),
                cpu: TwoArguments::MaxSize(MaxSize { intercept: pv(p, 0, 100788), slope: pv(p, 1, 420) }),
            }),
        DefaultFunction::SubtractInteger => BuiltinCost::Two(Costing {
                mem: TwoArguments::MaxSize(MaxSize { intercept: pv(p, 151, 1), slope: pv(p, 152, 1) }),
                cpu: TwoArguments::MaxSize(MaxSize { intercept: pv(p, 149, 100788), slope: pv(p, 150, 420) }),
            }),
        DefaultFunction::MultiplyInteger => BuiltinCost::Two(Costing {
                mem: TwoArguments::AddedSizes(AddedSizes { intercept: pv(p, 117, 0), slope: pv(p, 118, 1) }),
                cpu: TwoArguments::MultipliedSizes(MultipliedSizes { intercept: pv(p, 115, 90434), slope: pv(p, 116, 519) }),
            }),
        DefaultFunction::DivideInteger => BuiltinCost::Two(Costing {
                mem: TwoArguments::SubtractedSizes(SubtractedSizes { intercept: pv(p, 52, 0), slope: pv(p, 54, 1), minimum: pv(p, 53, 1) }),
                cpu: TwoArguments::ConstAboveDiagonalIntoMultipliedSizes(pv(p, 49, 85848), MultipliedSizes { intercept: pv(p, 50, 228465), slope: pv(p, 51, 122) }),
            }),
        DefaultFunction::QuotientInteger => BuiltinCost::Two(Costing {
                mem: TwoArguments::SubtractedSizes(SubtractedSizes { intercept: pv(p, 124, 0), slope: pv(p, 126, 1), minimum: pv(p, 125, 1) }),
                cpu: TwoArguments::ConstAboveDiagonalIntoMultipliedSizes(pv(p, 121, 85848), MultipliedSizes { intercept: pv(p, 122, 228465), slope: pv(p, 123, 122) }),
            }),
        DefaultFunction::RemainderInteger => BuiltinCost::Two(Costing {
                mem: TwoArguments::SubtractedSizes(SubtractedSizes { intercept: pv(p, 130, 0), slope: pv(p, 132, 1), minimum: pv(p, 131, 1) }),
                cpu: TwoArguments::ConstAboveDiagonalIntoMultipliedSizes(pv(p, 127, 85848), MultipliedSizes { intercept: pv(p, 128, 228465), slope: pv(p, 129, 122) }),
            }),
        DefaultFunction::ModInteger => BuiltinCost::Two(Costing {
                mem: TwoArguments::SubtractedSizes(SubtractedSizes { intercept: pv(p, 112, 0), slope: pv(p, 114, 1), minimum: pv(p, 113, 1) }),
                cpu: TwoArguments::ConstAboveDiagonalIntoMultipliedSizes(pv(p, 109, 85848), MultipliedSizes { intercept: pv(p, 110, 228465), slope: pv(p, 111, 122) }),
            }),
        DefaultFunction::EqualsInteger => BuiltinCost::Two(Costing {
                mem: TwoArguments::ConstantCost(pv(p, 68, 1)),
                cpu: TwoArguments::MinSize(MinSize { intercept: pv(p, 66, 51775), slope: pv(p, 67, 558) }),
            }),
        DefaultFunction::LessThanInteger => BuiltinCost::Two(Costing {
                mem: TwoArguments::ConstantCost(pv(p, 96, 1)),
                cpu: TwoArguments::MinSize(MinSize { intercept: pv(p, 94, 44749), slope: pv(p, 95, 541) }),
            }),
        DefaultFunction::LessThanEqualsInteger => BuiltinCost::Two(Costing {
                mem: TwoArguments::ConstantCost(pv(p, 93, 1)),
                cpu: TwoArguments::MinSize(MinSize { intercept: pv(p, 91, 43285), slope: pv(p, 92, 552) }),
            }),
        DefaultFunction::AppendByteString => BuiltinCost::Two(Costing {
                mem: TwoArguments::AddedSizes(AddedSizes { intercept: pv(p, 6, 0), slope: pv(p, 7, 1) }),
                cpu: TwoArguments::AddedSizes(AddedSizes { intercept: pv(p, 4, 1000), slope: pv(p, 5, 173) }),
            }),
        DefaultFunction::ConsByteString => BuiltinCost::Two(Costing {
                mem: TwoArguments::AddedSizes(AddedSizes { intercept: pv(p, 41, 0), slope: pv(p, 42, 1) }),
                cpu: TwoArguments::LinearInY(LinearSize { intercept: pv(p, 39, 72010), slope: pv(p, 40, 178) }),
            }),
        DefaultFunction::SliceByteString => BuiltinCost::Three(Costing {
                mem: ThreeArguments::LinearInZ(LinearSize { intercept: pv(p, 145, 4), slope: pv(p, 146, 0) }),
                cpu: ThreeArguments::LinearInZ(LinearSize { intercept: pv(p, 143, 20467), slope: pv(p, 144, 1) }),
            }),
        DefaultFunction::LengthOfByteString => BuiltinCost::One(Costing {
                mem: OneArgument::Constant(pv(p, 84, 10)),
                cpu: OneArgument::Constant(pv(p, 83, 22100)),
            }),
        DefaultFunction::IndexByteString => BuiltinCost::Two(Costing {
                mem: TwoArguments::ConstantCost(pv(p, 82, 4)),
                cpu: TwoArguments::ConstantCost(pv(p, 81, 13169)),
            }),
        DefaultFunction::EqualsByteString => BuiltinCost::Two(Costing {
                mem: TwoArguments::ConstantCost(pv(p, 62, 1)),
                cpu: TwoArguments::LinearOnDiagonal(ConstantOrLinear { constant: pv(p, 59, 24548), intercept: pv(p, 60, 29498), slope: pv(p, 61, 38) }),
            }),
        DefaultFunction::LessThanByteString => BuiltinCost::Two(Costing {
                mem: TwoArguments::ConstantCost(pv(p, 87, 1)),
                cpu: TwoArguments::MinSize(MinSize { intercept: pv(p, 85, 28999), slope: pv(p, 86, 74) }),
            }),
        DefaultFunction::LessThanEqualsByteString => BuiltinCost::Two(Costing {
                mem: TwoArguments::ConstantCost(pv(p, 90, 1)),
                cpu: TwoArguments::MinSize(MinSize { intercept: pv(p, 88, 28999), slope: pv(p, 89, 74) }),
            }),
        DefaultFunction::Sha2_256 => BuiltinCost::One(Costing {
                mem: OneArgument::Constant(pv(p, 139, 4)),
                cpu: OneArgument::Linear(LinearSize { intercept: pv(p, 137, 270652), slope: pv(p, 138, 22588) }),
            }),
        DefaultFunction::Sha3_256 => BuiltinCost::One(Costing {
                mem: OneArgument::Constant(pv(p, 142, 4)),
                cpu: OneArgument::Linear(LinearSize { intercept: pv(p, 140, 1457325), slope: pv(p, 141, 64566) }),
            }),
        DefaultFunction::Blake2b_256 => BuiltinCost::One(Costing {
                mem: OneArgument::Constant(pv(p, 16, 4)),
                cpu: OneArgument::Linear(LinearSize { intercept: pv(p, 14, 201305), slope: pv(p, 15, 8356) }),
            }),
        DefaultFunction::VerifyEd25519Signature => BuiltinCost::Three(Costing {
                mem: ThreeArguments::ConstantCost(pv(p, 171, 10)),
                cpu: ThreeArguments::LinearInY(LinearSize { intercept: pv(p, 169, 53384111), slope: pv(p, 170, 14333) }),
            }),
        DefaultFunction::AppendString => BuiltinCost::Two(Costing {
                mem: TwoArguments::AddedSizes(AddedSizes { intercept: pv(p, 10, 4), slope: pv(p, 11, 1) }),
                cpu: TwoArguments::AddedSizes(AddedSizes { intercept: pv(p, 8, 1000), slope: pv(p, 9, 59957) }),
            }),
        DefaultFunction::EqualsString => BuiltinCost::Two(Costing {
                mem: TwoArguments::ConstantCost(pv(p, 72, 1)),
                cpu: TwoArguments::LinearOnDiagonal(ConstantOrLinear { constant: pv(p, 69, 39184), intercept: pv(p, 70, 1000), slope: pv(p, 71, 60594) }),
            }),
        DefaultFunction::EncodeUtf8 => BuiltinCost::One(Costing {
                mem: OneArgument::Linear(LinearSize { intercept: pv(p, 57, 4), slope: pv(p, 58, 2) }),
                cpu: OneArgument::Linear(LinearSize { intercept: pv(p, 55, 1000), slope: pv(p, 56, 42921) }),
            }),
        DefaultFunction::DecodeUtf8 => BuiltinCost::One(Costing {
                mem: OneArgument::Linear(LinearSize { intercept: pv(p, 47, 4), slope: pv(p, 48, 2) }),
                cpu: OneArgument::Linear(LinearSize { intercept: pv(p, 45, 91189), slope: pv(p, 46, 769) }),
            }),
        DefaultFunction::IfThenElse => BuiltinCost::Three(Costing {
                mem: ThreeArguments::ConstantCost(pv(p, 80, 1)),
                cpu: ThreeArguments::ConstantCost(pv(p, 79, 76049)),
            }),
        DefaultFunction::ChooseUnit => BuiltinCost::Two(Costing {
                mem: TwoArguments::ConstantCost(pv(p, 38, 4)),
                cpu: TwoArguments::ConstantCost(pv(p, 37, 61462)),
            }),
        DefaultFunction::Trace => BuiltinCost::Two(Costing {
                mem: TwoArguments::ConstantCost(pv(p, 156, 32)),
                cpu: TwoArguments::ConstantCost(pv(p, 155, 59498)),
            }),
        DefaultFunction::FstPair => BuiltinCost::One(Costing {
                mem: OneArgument::Constant(pv(p, 74, 32)),
                cpu: OneArgument::Constant(pv(p, 73, 141895)),
            }),
        DefaultFunction::SndPair => BuiltinCost::One(Costing {
                mem: OneArgument::Constant(pv(p, 148, 32)),
                cpu: OneArgument::Constant(pv(p, 147, 141992)),
            }),
        DefaultFunction::ChooseList => BuiltinCost::Three(Costing {
                mem: ThreeArguments::ConstantCost(pv(p, 36, 32)),
                cpu: ThreeArguments::ConstantCost(pv(p, 35, 132994)),
            }),
        DefaultFunction::MkCons => BuiltinCost::Two(Costing {
                mem: TwoArguments::ConstantCost(pv(p, 102, 32)),
                cpu: TwoArguments::ConstantCost(pv(p, 101, 72362)),
            }),
        DefaultFunction::HeadList => BuiltinCost::One(Costing {
                mem: OneArgument::Constant(pv(p, 76, 32)),
                cpu: OneArgument::Constant(pv(p, 75, 83150)),
            }),
        DefaultFunction::TailList => BuiltinCost::One(Costing {
                mem: OneArgument::Constant(pv(p, 154, 32)),
                cpu: OneArgument::Constant(pv(p, 153, 81663)),
            }),
        DefaultFunction::NullList => BuiltinCost::One(Costing {
                mem: OneArgument::Constant(pv(p, 120, 32)),
                cpu: OneArgument::Constant(pv(p, 119, 74433)),
            }),
        DefaultFunction::ChooseData => BuiltinCost::Six(Costing {
                mem: SixArguments::ConstantCost(pv(p, 34, 32)),
                cpu: SixArguments::ConstantCost(pv(p, 33, 94375)),
            }),
        DefaultFunction::ConstrData => BuiltinCost::Two(Costing {
                mem: TwoArguments::ConstantCost(pv(p, 44, 32)),
                cpu: TwoArguments::ConstantCost(pv(p, 43, 22151)),
            }),
        DefaultFunction::MapData => BuiltinCost::One(Costing {
                mem: OneArgument::Constant(pv(p, 100, 32)),
                cpu: OneArgument::Constant(pv(p, 99, 68246)),
            }),
        DefaultFunction::ListData => BuiltinCost::One(Costing {
                mem: OneArgument::Constant(pv(p, 98, 32)),
                cpu: OneArgument::Constant(pv(p, 97, 33852)),
            }),
        DefaultFunction::IData => BuiltinCost::One(Costing {
                mem: OneArgument::Constant(pv(p, 78, 32)),
                cpu: OneArgument::Constant(pv(p, 77, 15299)),
            }),
        DefaultFunction::BData => BuiltinCost::One(Costing {
                mem: OneArgument::Constant(pv(p, 13, 32)),
                cpu: OneArgument::Constant(pv(p, 12, 11183)),
            }),
        DefaultFunction::UnConstrData => BuiltinCost::One(Costing {
                mem: OneArgument::Constant(pv(p, 160, 32)),
                cpu: OneArgument::Constant(pv(p, 159, 24588)),
            }),
        DefaultFunction::UnMapData => BuiltinCost::One(Costing {
                mem: OneArgument::Constant(pv(p, 166, 32)),
                cpu: OneArgument::Constant(pv(p, 165, 24623)),
            }),
        DefaultFunction::UnListData => BuiltinCost::One(Costing {
                mem: OneArgument::Constant(pv(p, 164, 32)),
                cpu: OneArgument::Constant(pv(p, 163, 25933)),
            }),
        DefaultFunction::UnIData => BuiltinCost::One(Costing {
                mem: OneArgument::Constant(pv(p, 162, 32)),
                cpu: OneArgument::Constant(pv(p, 161, 20744)),
            }),
        DefaultFunction::UnBData => BuiltinCost::One(Costing {
                mem: OneArgument::Constant(pv(p, 158, 32)),
                cpu: OneArgument::Constant(pv(p, 157, 20142)),
            }),
        DefaultFunction::EqualsData => BuiltinCost::Two(Costing {
                mem: TwoArguments::ConstantCost(pv(p, 65, 1)),
                cpu: TwoArguments::MinSize(MinSize { intercept: pv(p, 63, 898148), slope: pv(p, 64, 27279) }),
            }),
        DefaultFunction::MkPairData => BuiltinCost::Two(Costing {
                mem: TwoArguments::ConstantCost(pv(p, 108, 32)),
                cpu: TwoArguments::ConstantCost(pv(p, 107, 11546)),
            }),
        DefaultFunction::MkNilData => BuiltinCost::One(Costing {
                mem: OneArgument::Constant(pv(p, 104, 32)),
                cpu: OneArgument::Constant(pv(p, 103, 7243)),
            }),
        DefaultFunction::MkNilPairData => BuiltinCost::One(Costing {
                mem: OneArgument::Constant(pv(p, 106, 32)),
                cpu: OneArgument::Constant(pv(p, 105, 7391)),
            }),
        DefaultFunction::SerialiseData => BuiltinCost::One(Costing {
                mem: OneArgument::Linear(LinearSize { intercept: pv(p, 135, 0), slope: pv(p, 136, 2) }),
                cpu: OneArgument::Linear(LinearSize { intercept: pv(p, 133, 955506), slope: pv(p, 134, 213312) }),
            }),
        DefaultFunction::VerifyEcdsaSecp256k1Signature => BuiltinCost::Three(Costing {
                mem: ThreeArguments::ConstantCost(pv(p, 168, 10)),
                cpu: ThreeArguments::ConstantCost(pv(p, 167, 43053543)),
            }),
        DefaultFunction::VerifySchnorrSecp256k1Signature => BuiltinCost::Three(Costing {
                mem: ThreeArguments::ConstantCost(pv(p, 174, 10)),
                cpu: ThreeArguments::LinearInY(LinearSize { intercept: pv(p, 172, 43574283), slope: pv(p, 173, 26308) }),
            }),
        DefaultFunction::Bls12_381_G1_Add => BuiltinCost::Two(Costing {
                mem: TwoArguments::ConstantCost(18i64),
                cpu: TwoArguments::ConstantCost(962335i64),
            }),
        DefaultFunction::Bls12_381_G1_Neg => BuiltinCost::One(Costing {
                mem: OneArgument::Constant(18i64),
                cpu: OneArgument::Constant(267929i64),
            }),
        DefaultFunction::Bls12_381_G1_ScalarMul => BuiltinCost::Two(Costing {
                mem: TwoArguments::ConstantCost(18i64),
                cpu: TwoArguments::LinearInX(LinearSize { intercept: 76433006i64, slope: 8868i64 }),
            }),
        DefaultFunction::Bls12_381_G1_Equal => BuiltinCost::Two(Costing {
                mem: TwoArguments::ConstantCost(1i64),
                cpu: TwoArguments::ConstantCost(442008i64),
            }),
        DefaultFunction::Bls12_381_G1_Compress => BuiltinCost::One(Costing {
                mem: OneArgument::Constant(6i64),
                cpu: OneArgument::Constant(2780678i64),
            }),
        DefaultFunction::Bls12_381_G1_Uncompress => BuiltinCost::One(Costing {
                mem: OneArgument::Constant(18i64),
                cpu: OneArgument::Constant(52948122i64),
            }),
        DefaultFunction::Bls12_381_G1_HashToGroup => BuiltinCost::Two(Costing {
                mem: TwoArguments::ConstantCost(18i64),
                cpu: TwoArguments::LinearInX(LinearSize { intercept: 52538055i64, slope: 3756i64 }),
            }),
        DefaultFunction::Bls12_381_G2_Add => BuiltinCost::Two(Costing {
                mem: TwoArguments::ConstantCost(36i64),
                cpu: TwoArguments::ConstantCost(1995836i64),
            }),
        DefaultFunction::Bls12_381_G2_Neg => BuiltinCost::One(Costing {
                mem: OneArgument::Constant(36i64),
                cpu: OneArgument::Constant(284546i64),
            }),
        DefaultFunction::Bls12_381_G2_ScalarMul => BuiltinCost::Two(Costing {
                mem: TwoArguments::ConstantCost(36i64),
                cpu: TwoArguments::LinearInX(LinearSize { intercept: 158221314i64, slope: 26549i64 }),
            }),
        DefaultFunction::Bls12_381_G2_Equal => BuiltinCost::Two(Costing {
                mem: TwoArguments::ConstantCost(1i64),
                cpu: TwoArguments::ConstantCost(901022i64),
            }),
        DefaultFunction::Bls12_381_G2_Compress => BuiltinCost::One(Costing {
                mem: OneArgument::Constant(12i64),
                cpu: OneArgument::Constant(3227919i64),
            }),
        DefaultFunction::Bls12_381_G2_Uncompress => BuiltinCost::One(Costing {
                mem: OneArgument::Constant(36i64),
                cpu: OneArgument::Constant(74698472i64),
            }),
        DefaultFunction::Bls12_381_G2_HashToGroup => BuiltinCost::Two(Costing {
                mem: TwoArguments::ConstantCost(36i64),
                cpu: TwoArguments::LinearInX(LinearSize { intercept: 166917843i64, slope: 4307i64 }),
            }),
        DefaultFunction::Bls12_381_MillerLoop => BuiltinCost::Two(Costing {
                mem: TwoArguments::ConstantCost(72i64),
                cpu: TwoArguments::ConstantCost(254006273i64),
            }),
        DefaultFunction::Bls12_381_MulMlResult => BuiltinCost::Two(Costing {
                mem: TwoArguments::ConstantCost(72i64),
                cpu: TwoArguments::ConstantCost(2174038i64),
            }),
        DefaultFunction::Bls12_381_FinalVerify => BuiltinCost::Two(Costing {
                mem: TwoArguments::ConstantCost(1i64),
                cpu: TwoArguments::ConstantCost(333849714i64),
            }),
        DefaultFunction::Keccak_256 => BuiltinCost::One(Costing {
                mem: OneArgument::Constant(4i64),
                cpu: OneArgument::Linear(LinearSize { intercept: 2261318i64, slope: 64571i64 }),
            }),
        DefaultFunction::Blake2b_224 => BuiltinCost::One(Costing {
                mem: OneArgument::Constant(4i64),
                cpu: OneArgument::Linear(LinearSize { intercept: 207616i64, slope: 8310i64 }),
            }),
        DefaultFunction::IntegerToByteString => BuiltinCost::Three(Costing {
                mem: ThreeArguments::LiteralInYorLinearInZ(LinearSize { intercept: 0i64, slope: 1i64 }),
                cpu: ThreeArguments::QuadraticInZ(QuadraticFunction { coeff_0: 1293828i64, coeff_1: 28716i64, coeff_2: 63i64 }),
            }),
        DefaultFunction::ByteStringToInteger => BuiltinCost::Two(Costing {
                mem: TwoArguments::LinearInY(LinearSize { intercept: 0i64, slope: 1i64 }),
                cpu: TwoArguments::QuadraticInY(QuadraticFunction { coeff_0: 1006041i64, coeff_1: 43623i64, coeff_2: 251i64 }),
            }),
        DefaultFunction::AndByteString => BuiltinCost::Three(Costing {
                mem: ThreeArguments::LinearInMaxYZ(LinearSize { intercept: 0i64, slope: 1i64 }),
                cpu: ThreeArguments::LinearInYAndZ(TwoVariableLinearSize { intercept: 100181i64, slope1: 726i64, slope2: 719i64 }),
            }),
        DefaultFunction::OrByteString => BuiltinCost::Three(Costing {
                mem: ThreeArguments::LinearInMaxYZ(LinearSize { intercept: 0i64, slope: 1i64 }),
                cpu: ThreeArguments::LinearInYAndZ(TwoVariableLinearSize { intercept: 100181i64, slope1: 726i64, slope2: 719i64 }),
            }),
        DefaultFunction::XorByteString => BuiltinCost::Three(Costing {
                mem: ThreeArguments::LinearInMaxYZ(LinearSize { intercept: 0i64, slope: 1i64 }),
                cpu: ThreeArguments::LinearInYAndZ(TwoVariableLinearSize { intercept: 100181i64, slope1: 726i64, slope2: 719i64 }),
            }),
        DefaultFunction::ComplementByteString => BuiltinCost::One(Costing {
                mem: OneArgument::Linear(LinearSize { intercept: 0i64, slope: 1i64 }),
                cpu: OneArgument::Linear(LinearSize { intercept: 107878i64, slope: 680i64 }),
            }),
        DefaultFunction::ReadBit => BuiltinCost::Two(Costing {
                mem: TwoArguments::ConstantCost(1i64),
                cpu: TwoArguments::ConstantCost(95336i64),
            }),
        DefaultFunction::WriteBits => BuiltinCost::Three(Costing {
                mem: ThreeArguments::LinearInX(LinearSize { intercept: 0i64, slope: 1i64 }),
                cpu: ThreeArguments::LinearInY(LinearSize { intercept: 281145i64, slope: 18848i64 }),
            }),
        DefaultFunction::ReplicateByte => BuiltinCost::Two(Costing {
                mem: TwoArguments::LinearInX(LinearSize { intercept: 1i64, slope: 1i64 }),
                cpu: TwoArguments::LinearInX(LinearSize { intercept: 180194i64, slope: 159i64 }),
            }),
        DefaultFunction::ShiftByteString => BuiltinCost::Two(Costing {
                mem: TwoArguments::LinearInX(LinearSize { intercept: 0i64, slope: 1i64 }),
                cpu: TwoArguments::LinearInX(LinearSize { intercept: 158519i64, slope: 8942i64 }),
            }),
        DefaultFunction::RotateByteString => BuiltinCost::Two(Costing {
                mem: TwoArguments::LinearInX(LinearSize { intercept: 0i64, slope: 1i64 }),
                cpu: TwoArguments::LinearInX(LinearSize { intercept: 159378i64, slope: 8813i64 }),
            }),
        DefaultFunction::CountSetBits => BuiltinCost::One(Costing {
                mem: OneArgument::Constant(1i64),
                cpu: OneArgument::Linear(LinearSize { intercept: 107490i64, slope: 3298i64 }),
            }),
        DefaultFunction::FindFirstSetBit => BuiltinCost::One(Costing {
                mem: OneArgument::Constant(1i64),
                cpu: OneArgument::Linear(LinearSize { intercept: 106057i64, slope: 655i64 }),
            }),
        DefaultFunction::Ripemd_160 => BuiltinCost::One(Costing {
                mem: OneArgument::Constant(3i64),
                cpu: OneArgument::Linear(LinearSize { intercept: 1964219i64, slope: 24520i64 }),
            }),
        DefaultFunction::ExpModInteger => BuiltinCost::Three(Costing {
                mem: ThreeArguments::LinearInZ(LinearSize { intercept: 0i64, slope: 1i64 }),
                cpu: ThreeArguments::ExpModCost(ExpModCost { coeff_00: 607153i64, coeff_11: 231697i64, coeff_12: 53144i64 }),
            }),
        DefaultFunction::DropList => BuiltinCost::Two(Costing {
                mem: TwoArguments::ConstantCost(4i64),
                cpu: TwoArguments::LinearInX(LinearSize { intercept: 116711i64, slope: 1957i64 }),
            }),
        DefaultFunction::LengthOfArray => BuiltinCost::One(Costing {
                mem: OneArgument::Constant(10i64),
                cpu: OneArgument::Constant(231883i64),
            }),
        DefaultFunction::ListToArray => BuiltinCost::One(Costing {
                mem: OneArgument::Linear(LinearSize { intercept: 7i64, slope: 1i64 }),
                cpu: OneArgument::Linear(LinearSize { intercept: 1000i64, slope: 24838i64 }),
            }),
        DefaultFunction::IndexArray => BuiltinCost::Two(Costing {
                mem: TwoArguments::ConstantCost(32i64),
                cpu: TwoArguments::ConstantCost(232010i64),
            }),
    }
}

/// The cost functions of `f` under the second version's parameters `p`.
#[verifier::rlimit(50)]
pub fn entry_v2(p: &[i64], f: DefaultFunction) -> (r: BuiltinCost)
    ensures
        r == spec_entry_v2(p@, f),
{
    match f {
        DefaultFunction::AddInteger => BuiltinCost::Two(Costing {
                mem: TwoArguments::MaxSize(MaxSize { intercept: param(p, 2, 1), slope: param(p, 3, 1) }),
                cpu: TwoArguments::MaxSize(MaxSize { intercept: param(p, 0, 100788), slope: param(p, 1, 420) }),
            }),
        DefaultFunction::SubtractInteger => BuiltinCost::Two(Costing {
                mem: TwoArguments::MaxSize(MaxSize { intercept: param(p, 151, 1), slope: param(p, 152, 1) }),
                cpu: TwoArguments::MaxSize(MaxSize { intercept: param(p, 149, 100788), slope: param(p, 150, 420) }),
            }),
        DefaultFunction::MultiplyInteger => BuiltinCost::Two(Costing {
                mem: TwoArguments::AddedSizes(AddedSizes { intercept: param(p, 117, 0), slope: param(p, 118, 1) }),
                cpu: TwoArguments::MultipliedSizes(MultipliedSizes { intercept: param(p, 115, 90434), slope: param(p, 116, 519) }),
            }),
        DefaultFunction::DivideInteger => BuiltinCost::Two(Costing {
                mem: TwoArguments::SubtractedSizes(SubtractedSizes { intercept: param(p, 52, 0), slope: param(p, 54, 1), minimum: param(p, 53, 1) }),
                cpu: TwoArguments::ConstAboveDiagonalIntoMultipliedSizes(param(p, 49, 85848), MultipliedSizes { intercept: param(p, 50, 228465), slope: param(p, 51, 122) }),
            }),
        DefaultFunction::QuotientInteger => BuiltinCost::Two(Costing {
                mem: TwoArguments::SubtractedSizes(SubtractedSizes { intercept: param(p, 124, 0), slope: param(p, 126, 1), minimum: param(p, 125, 1) }),
                cpu: TwoArguments::ConstAboveDiagonalIntoMultipliedSizes(param(p, 121, 85848), MultipliedSizes { intercept: param(p, 122, 228465), slope: param(p, 123, 122) }),
            }),
        DefaultFunction::RemainderInteger => BuiltinCost::Two(Costing {
                mem: TwoArguments::SubtractedSizes(SubtractedSizes { intercept: param(p, 130, 0), slope: param(p, 132, 1), minimum: param(p, 131, 1) }),
                cpu: TwoArguments::ConstAboveDiagonalIntoMultipliedSizes(param(p, 127, 85848), MultipliedSizes { intercept: param(p, 128, 228465), slope: param(p, 129, 122) }),
            }),
        DefaultFunction::ModInteger => BuiltinCost::Two(Costing {
                mem: TwoArguments::SubtractedSizes(SubtractedSizes { intercept: param(p, 112, 0), slope: param(p, 114, 1), minimum: param(p, 113, 1) }),
                cpu: TwoArguments::ConstAboveDiagonalIntoMultipliedSizes(param(p, 109, 85848), MultipliedSizes { intercept: param(p, 110, 228465), slope: param(p, 111, 122) }),
            }),
        DefaultFunction::EqualsInteger => BuiltinCost::Two(Costing {
                mem: TwoArguments::ConstantCost(param(p, 68, 1)),
                cpu: TwoArguments::MinSize(MinSize { intercept: param(p, 66, 51775), slope: param(p, 67, 558) }),
            }),
        DefaultFunction::LessThanInteger => BuiltinCost::Two(Costing {
                mem: TwoArguments::ConstantCost(param(p, 96, 1)),
                cpu: TwoArguments::MinSize(MinSize { intercept: param(p, 94, 44749), slope: param(p, 95, 541) }),
            }),
        DefaultFunction::LessThanEqualsInteger => BuiltinCost::Two(Costing {
                mem: TwoArguments::ConstantCost(param(p, 93, 1)),
                cpu: TwoArguments::MinSize(MinSize { intercept: param(p, 91, 43285), slope: param(p, 92, 552) }),
            }),
        DefaultFunction::AppendByteString => BuiltinCost::Two(Costing {
                mem: TwoArguments::AddedSizes(AddedSizes { intercept: param(p, 6, 0), slope: param(p, 7, 1) }),
                cpu: TwoArguments::AddedSizes(AddedSizes { intercept: param(p, 4, 1000), slope: param(p, 5, 173) }),
            }),
        DefaultFunction::ConsByteString => BuiltinCost::Two(Costing {
                mem: TwoArguments::AddedSizes(AddedSizes { intercept: param(p, 41, 0), slope: param(p, 42, 1) }),
                cpu: TwoArguments::LinearInY(LinearSize { intercept: param(p, 39, 72010), slope: param(p, 40, 178) }),
            }),
        DefaultFunction::SliceByteString => BuiltinCost::Three(Costing {
                mem: ThreeArguments::LinearInZ(LinearSize { intercept: param(p, 145, 4), slope: param(p, 146, 0) }),
                cpu: ThreeArguments::LinearInZ(LinearSize { intercept: param(p, 143, 20467), slope: param(p, 144, 1) }),
            }),
        DefaultFunction::LengthOfByteString => BuiltinCost::One(Costing {
                mem: OneArgument::Constant(param(p, 84, 10)),
                cpu: OneArgument::Constant(param(p, 83, 22100)),
            }),
        DefaultFunction::IndexByteString => BuiltinCost::Two(Costing {
                mem: TwoArguments::ConstantCost(param(p, 82, 4)),
                cpu: TwoArguments::ConstantCost(param(p, 81, 13169)),
            }),
        DefaultFunction::EqualsByteString => BuiltinCost::Two(Costing {
                mem: TwoArguments::ConstantCost(param(p, 62, 1)),
                cpu: TwoArguments::LinearOnDiagonal(ConstantOrLinear { constant: param(p, 59, 24548), intercept: param(p, 60, 29498), slope: param(p, 61, 38) }),
            }),
        DefaultFunction::LessThanByteString => BuiltinCost::Two(Costing {
                mem: TwoArguments::ConstantCost(param(p, 87, 1)),
                cpu: TwoArguments::MinSize(MinSize { intercept: param(p, 85, 28999), slope: param(p, 86, 74) }),
            }),
        DefaultFunction::LessThanEqualsByteString => BuiltinCost::Two(Costing {
                mem: TwoArguments::ConstantCost(param(p, 90, 1)),
                cpu: TwoArguments::MinSize(MinSize { intercept: param(p, 88, 28999), slope: param(p, 89, 74) }),
            }),
        DefaultFunction::Sha2_256 => BuiltinCost::One(Costing {
                mem: OneArgument::Constant(param(p, 139, 4)),
                cpu: OneArgument::Linear(LinearSize { intercept: param(p, 137, 270652), slope: param(p, 138, 22588) }),
            }),
        DefaultFunction::Sha3_256 => BuiltinCost::One(Costing {
                mem: OneArgument::Constant(param(p, 142, 4)),
                cpu: OneArgument::Linear(LinearSize { intercept: param(p, 140, 1457325), slope: param(p, 141, 64566) }),
            }),
        DefaultFunction::Blake2b_256 => BuiltinCost::One(Costing {
                mem: OneArgument::Constant(param(p, 16, 4)),
                cpu: OneArgument::Linear(LinearSize { intercept: param(p, 14, 201305), slope: param(p, 15, 8356) }),
            }),
        DefaultFunction::VerifyEd25519Signature => BuiltinCost::Three(Costing {
                mem: ThreeArguments::ConstantCost(param(p, 171, 10)),
                cpu: ThreeArguments::LinearInY(LinearSize { intercept: param(p, 169, 53384111), slope: param(p, 170, 14333) }),
            }),
        DefaultFunction::AppendString => BuiltinCost::Two(Costing {
                mem: TwoArguments::AddedSizes(AddedSizes { intercept: param(p, 10, 4), slope: param(p, 11, 1) }),
                cpu: TwoArguments::AddedSizes(AddedSizes { intercept: param(p, 8, 1000), slope: param(p, 9, 59957) }),
            }),
        DefaultFunction::EqualsString => BuiltinCost::Two(Costing {
                mem: TwoArguments::ConstantCost(param(p, 72, 1)),
                cpu: TwoArguments::LinearOnDiagonal(ConstantOrLinear { constant: param(p, 69, 39184), intercept: param(p, 70, 1000), slope: param(p, 71, 60594) }),
            }),
        DefaultFunction::EncodeUtf8 => BuiltinCost::One(Costing {
                mem: OneArgument::Linear(LinearSize { intercept: param(p, 57, 4), slope: param(p, 58, 2) }),
                cpu: OneArgument::Linear(LinearSize { intercept: param(p, 55, 1000), slope: param(p, 56, 42921) }),
            }),
        DefaultFunction::DecodeUtf8 => BuiltinCost::One(Costing {
                mem: OneArgument::Linear(LinearSize { intercept: param(p, 47, 4), slope: param(p, 48, 2) }),
                cpu: OneArgument::Linear(LinearSize { intercept: param(p, 45, 91189), slope: param(p, 46, 769) }),
            }),
        DefaultFunction::IfThenElse => BuiltinCost::Three(Costing {
                mem: ThreeArguments::ConstantCost(param(p, 80, 1)),
                cpu: ThreeArguments::ConstantCost(param(p, 79, 76049)),
            }),
        DefaultFunction::ChooseUnit => BuiltinCost::Two(Costing {
                mem: TwoArguments::ConstantCost(param(p, 38, 4)),
                cpu: TwoArguments::ConstantCost(param(p, 37, 61462)),
            }),
        DefaultFunction::Trace => BuiltinCost::Two(Costing {
                mem: TwoArguments::ConstantCost(param(p, 156, 32)),
                cpu: TwoArguments::ConstantCost(param(p, 155, 59498)),
            }),
        DefaultFunction::FstPair => BuiltinCost::One(Costing {
                mem: OneArgument::Constant(param(p, 74, 32)),
                cpu: OneArgument::Constant(param(p, 73, 141895)),
            }),
        DefaultFunction::SndPair => BuiltinCost::One(Costing {
                mem: OneArgument::Constant(param(p, 148, 32)),
                cpu: OneArgument::Constant(param(p, 147, 141992)),
            }),
        DefaultFunction::ChooseList => BuiltinCost::Three(Costing {
                mem: ThreeArguments::ConstantCost(param(p, 36, 32)),
                cpu: ThreeArguments::ConstantCost(param(p, 35, 132994)),
            }),
        DefaultFunction::MkCons => BuiltinCost::Two(Costing {
                mem: TwoArguments::ConstantCost(param(p, 102, 32)),
                cpu: TwoArguments::ConstantCost(param(p, 101, 72362)),
            }),
        DefaultFunction::HeadList => BuiltinCost::One(Costing {
                mem: OneArgument::Constant(param(p, 76, 32)),
                cpu: OneArgument::Constant(param(p, 75, 83150)),
            }),
        DefaultFunction::TailList => BuiltinCost::One(Costing {
                mem: OneArgument::Constant(param(p, 154, 32)),
                cpu: OneArgument::Constant(param(p, 153, 81663)),
            }),
        DefaultFunction::NullList => BuiltinCost::One(Costing {
                mem: OneArgument::Constant(param(p, 120, 32)),
                cpu: OneArgument::Constant(param(p, 119, 74433)),
            }),
        DefaultFunction::ChooseData => BuiltinCost::Six(Costing {
                mem: SixArguments::ConstantCost(param(p, 34, 32)),
                cpu: SixArguments::ConstantCost(param(p, 33, 94375)),
            }),
        DefaultFunction::ConstrData => BuiltinCost::Two(Costing {
                mem: TwoArguments::ConstantCost(param(p, 44, 32)),
                cpu: TwoArguments::ConstantCost(param(p, 43, 22151)),
            }),
        DefaultFunction::MapData => BuiltinCost::One(Costing {
                mem: OneArgument::Constant(param(p, 100, 32)),
                cpu: OneArgument::Constant(param(p, 99, 68246)),
            }),
        DefaultFunction::ListData => BuiltinCost::One(Costing {
                mem: OneArgument::Constant(param(p, 98, 32)),
                cpu: OneArgument::Constant(param(p, 97, 33852)),
            }),
        DefaultFunction::IData => BuiltinCost::One(Costing {
                mem: OneArgument::Constant(param(p, 78, 32)),
                cpu: OneArgument::Constant(param(p, 77, 15299)),
            }),
        DefaultFunction::BData => BuiltinCost::One(Costing {
                mem: OneArgument::Constant(param(p, 13, 32)),
                cpu: OneArgument::Constant(param(p, 12, 11183)),
            }),
        DefaultFunction::UnConstrData => BuiltinCost::One(Costing {
                mem: OneArgument::Constant(param(p, 160, 32)),
                cpu: OneArgument::Constant(param(p, 159, 24588)),
            }),
        DefaultFunction::UnMapData => BuiltinCost::One(Costing {
                mem: OneArgument::Constant(param(p, 166, 32)),
                cpu: OneArgument::Constant(param(p, 165, 24623)),
            }),
        DefaultFunction::UnListData => BuiltinCost::One(Costing {
                mem: OneArgument::Constant(param(p, 164, 32)),
                cpu: OneArgument::Constant(param(p, 163, 25933)),
            }),
        DefaultFunction::UnIData => BuiltinCost::One(Costing {
                mem: OneArgument::Constant(param(p, 162, 32)),
                cpu: OneArgument::Constant(param(p, 161, 20744)),
            }),
        DefaultFunction::UnBData => BuiltinCost::One(Costing {
                mem: OneArgument::Constant(param(p, 158, 32)),
                cpu: OneArgument::Constant(param(p, 157, 20142)),
            }),
        DefaultFunction::EqualsData => BuiltinCost::Two(Costing {
                mem: TwoArguments::ConstantCost(param(p, 65, 1)),
                cpu: TwoArguments::MinSize(MinSize { intercept: param(p, 63, 898148), slope: param(p, 64, 27279) }),
            }),
        DefaultFunction::MkPairData => BuiltinCost::Two(Costing {
                mem: TwoArguments::ConstantCost(param(p, 108, 32)),
                cpu: TwoArguments::ConstantCost(param(p, 107, 11546)),
            }),
        DefaultFunction::MkNilData => BuiltinCost::One(Costing {
                mem: OneArgument::Constant(param(p, 104, 32)),
                cpu: OneArgument::Constant(param(p, 103, 7243)),
            }),
        DefaultFunction::MkNilPairData => BuiltinCost::One(Costing {
                mem: OneArgument::Constant(param(p, 106, 32)),
                cpu: OneArgument::Constant(param(p, 105, 7391)),
            }),
        DefaultFunction::SerialiseData => BuiltinCost::One(Costing {
                mem: OneArgument::Linear(LinearSize { intercept: param(p, 135, 0), slope: param(p, 136, 2) }),
                cpu: OneArgument::Linear(LinearSize { intercept: param(p, 133, 955506), slope: param(p, 134, 213312) }),
            }),
        DefaultFunction::VerifyEcdsaSecp256k1Signature => BuiltinCost::Three(Costing {
                mem: ThreeArguments::ConstantCost(param(p, 168, 10)),
                cpu: ThreeArguments::ConstantCost(param(p, 167, 43053543)),
            }),
        DefaultFunction::VerifySchnorrSecp256k1Signature => BuiltinCost::Three(Costing {
                mem: ThreeArguments::ConstantCost(param(p, 174, 10)),
                cpu: ThreeArguments::LinearInY(LinearSize { intercept: param(p, 172, 43574283), slope: param(p, 173, 26308) }),
            }),
        DefaultFunction::Bls12_381_G1_Add => BuiltinCost::Two(Costing {
                mem: TwoArguments::ConstantCost(18i64),
                cpu: TwoArguments::ConstantCost(962335i64),
            }),
        DefaultFunction::Bls12_381_G1_Neg => BuiltinCost::One(Costing {
                mem: OneArgument::Constant(18i64),
                cpu: OneArgument::Constant(267929i64),
            }),
        DefaultFunction::Bls12_381_G1_ScalarMul => BuiltinCost::Two(Costing {
                mem: TwoArguments::ConstantCost(18i64),
                cpu: TwoArguments::LinearInX(LinearSize { intercept: 76433006i64, slope: 8868i64 }),
            }),
        DefaultFunction::Bls12_381_G1_Equal => BuiltinCost::Two(Costing {
                mem: TwoArguments::ConstantCost(1i64),
                cpu: TwoArguments::ConstantCost(442008i64),
            }),
        DefaultFunction::Bls12_381_G1_Compress => BuiltinCost::One(Costing {
                mem: OneArgument::Constant(6i64),
                cpu: OneArgument::Constant(2780678i64),
            }),
        DefaultFunction::Bls12_381_G1_Uncompress => BuiltinCost::One(Costing {
                mem: OneArgument::Constant(18i64),
                cpu: OneArgument::Constant(52948122i64),
            }),
        DefaultFunction::Bls12_381_G1_HashToGroup => BuiltinCost::Two(Costing {
                mem: TwoArguments::ConstantCost(18i64),
                cpu: TwoArguments::LinearInX(LinearSize { intercept: 52538055i64, slope: 3756i64 }),
            }),
        DefaultFunction::Bls12_381_G2_Add => BuiltinCost::Two(Costing {
                mem: TwoArguments::ConstantCost(36i64),
                cpu: TwoArguments::ConstantCost(1995836i64),
            }),
        DefaultFunction::Bls12_381_G2_Neg => BuiltinCost::One(Costing {
                mem: OneArgument::Constant(36i64),
                cpu: OneArgument::Constant(284546i64),
            }),
        DefaultFunction::Bls12_381_G2_ScalarMul => BuiltinCost::Two(Costing {
                mem: TwoArguments::ConstantCost(36i64),
                cpu: TwoArguments::LinearInX(LinearSize { intercept: 158221314i64, slope: 26549i64 }),
            }),
        DefaultFunction::Bls12_381_G2_Equal => BuiltinCost::Two(Costing {
                mem: TwoArguments::ConstantCost(1i64),
                cpu: TwoArguments::ConstantCost(901022i64),
            }),
        DefaultFunction::Bls12_381_G2_Compress => BuiltinCost::One(Costing {
                mem: OneArgument::Constant(12i64),
                cpu: OneArgument::Constant(3227919i64),
            }),
        DefaultFunction::Bls12_381_G2_Uncompress => BuiltinCost::One(Costing {
                mem: OneArgument::Constant(36i64),
                cpu: OneArgument::Constant(74698472i64),
            }),
        DefaultFunction::Bls12_381_G2_HashToGroup => BuiltinCost::Two(Costing {
                mem: TwoArguments::ConstantCost(36i64),
                cpu: TwoArguments::LinearInX(LinearSize { intercept: 166917843i64, slope: 4307i64 }),
            }),
        DefaultFunction::Bls12_381_MillerLoop => BuiltinCost::Two(Costing {
                mem: TwoArguments::ConstantCost(72i64),
                cpu: TwoArguments::ConstantCost(254006273i64),
            }),
        DefaultFunction::Bls12_381_MulMlResult => BuiltinCost::Two(Costing {
                mem: TwoArguments::ConstantCost(72i64),
                cpu: TwoArguments::ConstantCost(2174038i64),
            }),
        DefaultFunction::Bls12_381_FinalVerify => BuiltinCost::Two(Costing {
                mem: TwoArguments::ConstantCost(1i64),
                cpu: TwoArguments::ConstantCost(333849714i64),
            }),
        DefaultFunction::Keccak_256 => BuiltinCost::One(Costing {
                mem: OneArgument::Constant(4i64),
                cpu: OneArgument::Linear(LinearSize { intercept: 2261318i64, slope: 64571i64 }),
            }),
        DefaultFunction::Blake2b_224 => BuiltinCost::One(Costing {
                mem: OneArgument::Constant(4i64),
                cpu: OneArgument::Linear(LinearSize { intercept: 207616i64, slope: 8310i64 }),
            }),
        DefaultFunction::IntegerToByteString => BuiltinCost::Three(Costing {
                mem: ThreeArguments::LiteralInYorLinearInZ(LinearSize { intercept: 0i64, slope: 1i64 }),
                cpu: ThreeArguments::QuadraticInZ(QuadraticFunction { coeff_0: 1293828i64, coeff_1: 28716i64, coeff_2: 63i64 }),
            }),
        DefaultFunction::ByteStringToInteger => BuiltinCost::Two(Costing {
                mem: TwoArguments::LinearInY(LinearSize { intercept: 0i64, slope: 1i64 }),
                cpu: TwoArguments::QuadraticInY(QuadraticFunction { coeff_0: 1006041i64, coeff_1: 43623i64, coeff_2: 251i64 }),
            }),
        DefaultFunction::AndByteString => BuiltinCost::Three(Costing {
                mem: ThreeArguments::LinearInMaxYZ(LinearSize { intercept: 0i64, slope: 1i64 }),
                cpu: ThreeArguments::LinearInYAndZ(TwoVariableLinearSize { intercept: 100181i64, slope1: 726i64, slope2: 719i64 }),
            }),
        DefaultFunction::OrByteString => BuiltinCost::Three(Costing {
                mem: ThreeArguments::LinearInMaxYZ(LinearSize { intercept: 0i64, slope: 1i64 }),
                cpu: ThreeArguments::LinearInYAndZ(TwoVariableLinearSize { intercept: 100181i64, slope1: 726i64, slope2: 719i64 }),
            }),
        DefaultFunction::XorByteString => BuiltinCost::Three(Costing {
                mem: ThreeArguments::LinearInMaxYZ(LinearSize { intercept: 0i64, slope: 1i64 }),
                cpu: ThreeArguments::LinearInYAndZ(TwoVariableLinearSize { intercept: 100181i64, slope1: 726i64, slope2: 719i64 }),
            }),
        DefaultFunction::ComplementByteString => BuiltinCost::One(Costing {
                mem: OneArgument::Linear(LinearSize { intercept: 0i64, slope: 1i64 }),
                cpu: OneArgument::Linear(LinearSize { intercept: 107878i64, slope: 680i64 }),
            }),
        DefaultFunction::ReadBit => BuiltinCost::Two(Costing {
                mem: TwoArguments::ConstantCost(1i64),
                cpu: TwoArguments::ConstantCost(95336i64),
            }),
        DefaultFunction::WriteBits => BuiltinCost::Three(Costing {
                mem: ThreeArguments::LinearInX(LinearSize { intercept: 0i64, slope: 1i64 }),
                cpu: ThreeArguments::LinearInY(LinearSize { intercept: 281145i64, slope: 18848i64 }),
            }),
        DefaultFunction::ReplicateByte => BuiltinCost::Two(Costing {
                mem: TwoArguments::LinearInX(LinearSize { intercept: 1i64, slope: 1i64 }),
                cpu: TwoArguments::LinearInX(LinearSize { intercept: 180194i64, slope: 159i64 }),
            }),
        DefaultFunction::ShiftByteString => BuiltinCost::Two(Costing {
                mem: TwoArguments::LinearInX(LinearSize { intercept: 0i64, slope: 1i64 }),
                cpu: TwoArguments::LinearInX(LinearSize { intercept: 158519i64, slope: 8942i64 }),
            }),
        DefaultFunction::RotateByteString => BuiltinCost::Two(Costing {
                mem: TwoArguments::LinearInX(LinearSize { intercept: 0i64, slope: 1i64 }),
                cpu: TwoArguments::LinearInX(LinearSize { intercept: 159378i64, slope: 8813i64 }),
            }),
        DefaultFunction::CountSetBits => BuiltinCost::One(Costing {
                mem: OneArgument::Constant(1i64),
                cpu: OneArgument::Linear(LinearSize { intercept: 107490i64, slope: 3298i64 }),
            }),
        DefaultFunction::FindFirstSetBit => BuiltinCost::One(Costing {
                mem: OneArgument::Constant(1i64),
                cpu: OneArgument::Linear(LinearSize { intercept: 106057i64, slope: 655i64 }),
            }),
        DefaultFunction::Ripemd_160 => BuiltinCost::One(Costing {
                mem: OneArgument::Constant(3i64),
                cpu: OneArgument::Linear(LinearSize { intercept: 1964219i64, slope: 24520i64 }),
            }),
        DefaultFunction::ExpModInteger => BuiltinCost::Three(Costing {
                mem: ThreeArguments::LinearInZ(LinearSize { intercept: 0i64, slope: 1i64 }),
                cpu: ThreeArguments::ExpModCost(ExpModCost { coeff_00: 607153i64, coeff_11: 231697i64, coeff_12: 53144i64 }),
            }),
        DefaultFunction::DropList => BuiltinCost::Two(Costing {
                mem: TwoArguments::ConstantCost(4i64),
                cpu: TwoArguments::LinearInX(LinearSize { intercept: 116711i64, slope: 1957i64 }),
            }),
        DefaultFunction::LengthOfArray => BuiltinCost::One(Costing {
                mem: OneArgument::Constant(10i64),
                cpu: OneArgument::Constant(231883i64),
            }),
        DefaultFunction::ListToArray => BuiltinCost::One(Costing {
                mem: OneArgument::Linear(LinearSize { intercept: 7i64, slope: 1i64 }),
                cpu: OneArgument::Linear(LinearSize { intercept: 1000i64, slope: 24838i64 }),
            }),
        DefaultFunction::IndexArray => BuiltinCost::Two(Costing {
                mem: TwoArguments::ConstantCost(32i64),
                cpu: TwoArguments::ConstantCost(232010i64),
            }),
    }
}

/// The cost functions of `f` under the third version's parameters `p`.
pub open spec fn spec_entry_v3(p: Seq<i64>, f: DefaultFunction) -> BuiltinCost {
    match f {
        DefaultFunction::AddInteger => BuiltinCost::Two(Costing {
                mem: TwoArguments::MaxSize(MaxSize { intercept: pv(p, 2, 1), slope: pv(p, 3, 1) }),
                cpu: TwoArguments::MaxSize(MaxSize { intercept: pv(p, 0, 100788), slope: pv(p, 1, 420) }),
            }),
        DefaultFunction::SubtractInteger => BuiltinCost::Two(Costing {
                mem: TwoArguments::MaxSize(MaxSize { intercept: pv(p, 169, 1), slope: pv(p, 170, 1) }),
                cpu: TwoArguments::MaxSize(MaxSize { intercept: pv(p, 167, 100788), slope: pv(p, 168, 420) }),
            }),
        DefaultFunction::MultiplyInteger => BuiltinCost::Two(Costing {
                mem: TwoArguments::AddedSizes(AddedSizes { intercept: pv(p, 126, 0), slope: pv(p, 127, 1) }),
                cpu: TwoArguments::MultipliedSizes(MultipliedSizes { intercept: pv(p, 124, 90434), slope: pv(p, 125, 519) }),
            }),
        DefaultFunction::DivideInteger => BuiltinCost::Two(Costing {
                mem: TwoArguments::SubtractedSizes(SubtractedSizes { intercept: pv(p, 57, 0), slope: pv(p, 59, 1), minimum: pv(p, 58, 1) }),
                cpu: TwoArguments::ConstAboveDiagonalIntoQuadraticXAndY(pv(p, 49, 85848), TwoArgumentsQuadraticFunction { minimum: pv(p, 56, 85848), coeff_00: pv(p, 50, 123203), coeff_01: pv(p, 51, 7305), coeff_02: pv(p, 52, -900i64), coeff_10: pv(p, 53, 1716), coeff_11: pv(p, 54, 549), coeff_20: pv(p, 55, 57) }),
            }),
        DefaultFunction::QuotientInteger => BuiltinCost::Two(Costing {
                mem: TwoArguments::SubtractedSizes(SubtractedSizes { intercept: pv(p, 138, 0), slope: pv(p, 140, 1), minimum: pv(p, 139, 1) }),
                cpu: TwoArguments::ConstAboveDiagonalIntoQuadraticXAndY(pv(p, 130, 85848), TwoArgumentsQuadraticFunction { minimum: pv(p, 137, 85848), coeff_00: pv(p, 131, 123203), coeff_01: pv(p, 132, 7305), coeff_02: pv(p, 133, -900i64), coeff_10: pv(p, 134, 1716), coeff_11: pv(p, 135, 549), coeff_20: pv(p, 136, 57) }),
            }),
        DefaultFunction::RemainderInteger => BuiltinCost::Two(Costing {
                mem: TwoArguments::LinearInY(LinearSize { intercept: pv(p, 149, 0), slope: pv(p, 150, 1) }),
                cpu: TwoArguments::ConstAboveDiagonalIntoQuadraticXAndY(pv(p, 141, 85848), TwoArgumentsQuadraticFunction { minimum: pv(p, 148, 85848), coeff_00: pv(p, 142, 123203), coeff_01: pv(p, 143, 7305), coeff_02: pv(p, 144, -900i64), coeff_10: pv(p, 145, 1716), coeff_11: pv(p, 146, 549), coeff_20: pv(p, 147, 57) }),
            }),
        DefaultFunction::ModInteger => BuiltinCost::Two(Costing {
                mem: TwoArguments::LinearInY(LinearSize { intercept: pv(p, 122, 0), slope: pv(p, 123, 1) }),
                cpu: TwoArguments::ConstAboveDiagonalIntoQuadraticXAndY(pv(p, 114, 85848), TwoArgumentsQuadraticFunction { minimum: pv(p, 121, 85848), coeff_00: pv(p, 115, 123203), coeff_01: pv(p, 116, 7305), coeff_02: pv(p, 117, -900i64), coeff_10: pv(p, 118, 1716), coeff_11: pv(p, 119, 549), coeff_20: pv(p, 120, 57) }),
            }),
        DefaultFunction::EqualsInteger => BuiltinCost::Two(Costing {
                mem: TwoArguments::ConstantCost(pv(p, 73, 1)),
                cpu: TwoArguments::MinSize(MinSize { intercept: pv(p, 71, 51775), slope: pv(p, 72, 558) }),
            }),
        DefaultFunction::LessThanInteger => BuiltinCost::Two(Costing {
                mem: TwoArguments::ConstantCost(pv(p, 101, 1)),
                cpu: TwoArguments::MinSize(MinSize { intercept: pv(p, 99, 44749), slope: pv(p, 100, 541) }),
            }),
        DefaultFunction::LessThanEqualsInteger => BuiltinCost::Two(Costing {
                mem: TwoArguments::ConstantCost(pv(p, 98, 1)),
                cpu: TwoArguments::MinSize(MinSize { intercept: pv(p, 96, 43285), slope: pv(p, 97, 552) }),
            }),
        DefaultFunction::AppendByteString => BuiltinCost::Two(Costing {
                mem: TwoArguments::AddedSizes(AddedSizes { intercept: pv(p, 6, 0), slope: pv(p, 7, 1) }),
                cpu: TwoArguments::AddedSizes(AddedSizes { intercept: pv(p, 4, 1000), slope: pv(p, 5, 173) }),
            }),
        DefaultFunction::ConsByteString => BuiltinCost::Two(Costing {
                mem: TwoArguments::AddedSizes(AddedSizes { intercept: pv(p, 41, 0), slope: pv(p, 42, 1) }),
                cpu: TwoArguments::LinearInY(LinearSize { intercept: pv(p, 39, 72010), slope: pv(p, 40, 178) }),
            }),
        DefaultFunction::SliceByteString => BuiltinCost::Three(Costing {
                mem: ThreeArguments::LinearInZ(LinearSize { intercept: pv(p, 163, 4), slope: pv(p, 164, 0) }),
                cpu: ThreeArguments::LinearInZ(LinearSize { intercept: pv(p, 161, 20467), slope: pv(p, 162, 1) }),
            }),
        DefaultFunction::LengthOfByteString => BuiltinCost::One(Costing {
                mem: OneArgument::Constant(pv(p, 89, 10)),
                cpu: OneArgument::Constant(pv(p, 88, 22100)),
            }),
        DefaultFunction::IndexByteString => BuiltinCost::Two(Costing {
                mem: TwoArguments::ConstantCost(pv(p, 87, 4)),
                cpu: TwoArguments::ConstantCost(pv(p, 86, 13169)),
            }),
        DefaultFunction::EqualsByteString => BuiltinCost::Two(Costing {
                mem: TwoArguments::ConstantCost(pv(p, 67, 1)),
                cpu: TwoArguments::LinearOnDiagonal(ConstantOrLinear { constant: pv(p, 64, 24548), intercept: pv(p, 65, 29498), slope: pv(p, 66, 38) }),
            }),
        DefaultFunction::LessThanByteString => BuiltinCost::Two(Costing {
                mem: TwoArguments::ConstantCost(pv(p, 92, 1)),
                cpu: TwoArguments::MinSize(MinSize { intercept: pv(p, 90, 28999), slope: pv(p, 91, 74) }),
            }),
        DefaultFunction::LessThanEqualsByteString => BuiltinCost::Two(Costing {
                mem: TwoArguments::ConstantCost(pv(p, 95, 1)),
                cpu: TwoArguments::MinSize(MinSize { intercept: pv(p, 93, 28999), slope: pv(p, 94, 74) }),
            }),
        DefaultFunction::Sha2_256 => BuiltinCost::One(Costing {
                mem: OneArgument::Constant(pv(p, 157, 4)),
                cpu: OneArgument::Linear(LinearSize { intercept: pv(p, 155, 270652), slope: pv(p, 156, 22588) }),
            }),
        DefaultFunction::Sha3_256 => BuiltinCost::One(Costing {
                mem: OneArgument::Constant(pv(p, 160, 4)),
                cpu: OneArgument::Linear(LinearSize { intercept: pv(p, 158, 1457325), slope: pv(p, 159, 64566) }),
            }),
        DefaultFunction::Blake2b_256 => BuiltinCost::One(Costing {
                mem: OneArgument::Constant(pv(p, 16, 4)),
                cpu: OneArgument::Linear(LinearSize { intercept: pv(p, 14, 201305), slope: pv(p, 15, 8356) }),
            }),
        DefaultFunction::VerifyEd25519Signature => BuiltinCost::Three(Costing {
                mem: ThreeArguments::ConstantCost(pv(p, 189, 10)),
                cpu: ThreeArguments::LinearInY(LinearSize { intercept: pv(p, 187, 53384111), slope: pv(p, 188, 14333) }),
            }),
        DefaultFunction::AppendString => BuiltinCost::Two(Costing {
                mem: TwoArguments::AddedSizes(AddedSizes { intercept: pv(p, 10, 4), slope: pv(p, 11, 1) }),
                cpu: TwoArguments::AddedSizes(AddedSizes { intercept: pv(p, 8, 1000), slope: pv(p, 9, 59957) }),
            }),
        DefaultFunction::EqualsString => BuiltinCost::Two(Costing {
                mem: TwoArguments::ConstantCost(pv(p, 77, 1)),
                cpu: TwoArguments::LinearOnDiagonal(ConstantOrLinear { constant: pv(p, 74, 39184), intercept: pv(p, 75, 1000), slope: pv(p, 76, 60594) }),
            }),
        DefaultFunction::EncodeUtf8 => BuiltinCost::One(Costing {
                mem: OneArgument::Linear(LinearSize { intercept: pv(p, 62, 4), slope: pv(p, 63, 2) }),
                cpu: OneArgument::Linear(LinearSize { intercept: pv(p, 60, 1000), slope: pv(p, 61, 42921) }),
            }),
        DefaultFunction::DecodeUtf8 => BuiltinCost::One(Costing {
                mem: OneArgument::Linear(LinearSize { intercept: pv(p, 47, 4), slope: pv(p, 48, 2) }),
                cpu: OneArgument::Linear(LinearSize { intercept: pv(p, 45, 91189), slope: pv(p, 46, 769) }),
            }),
        DefaultFunction::IfThenElse => BuiltinCost::Three(Costing {
                mem: ThreeArguments::ConstantCost(pv(p, 85, 1)),
                cpu: ThreeArguments::ConstantCost(pv(p, 84, 76049)),
            }),
        DefaultFunction::ChooseUnit => BuiltinCost::Two(Costing {
                mem: TwoArguments::ConstantCost(pv(p, 38, 4)),
                cpu: TwoArguments::ConstantCost(pv(p, 37, 61462)),
            }),
        DefaultFunction::Trace => BuiltinCost::Two(Costing {
                mem: TwoArguments::ConstantCost(pv(p, 174, 32)),
                cpu: TwoArguments::ConstantCost(pv(p, 173, 59498)),
            }),
        DefaultFunction::FstPair => BuiltinCost::One(Costing {
                mem: OneArgument::Constant(pv(p, 79, 32)),
                cpu: OneArgument::Constant(pv(p, 78, 141895)),
            }),
        DefaultFunction::SndPair => BuiltinCost::One(Costing {
                mem: OneArgument::Constant(pv(p, 166, 32)),
                cpu: OneArgument::Constant(pv(p, 165, 141992)),
            }),
        DefaultFunction::ChooseList => BuiltinCost::Three(Costing {
                mem: ThreeArguments::ConstantCost(pv(p, 36, 32)),
                cpu: ThreeArguments::ConstantCost(pv(p, 35, 132994)),
            }),
        DefaultFunction::MkCons => BuiltinCost::Two(Costing {
                mem: TwoArguments::ConstantCost(pv(p, 107, 32)),
                cpu: TwoArguments::ConstantCost(pv(p, 106, 72362)),
            }),
        DefaultFunction::HeadList => BuiltinCost::One(Costing {
                mem: OneArgument::Constant(pv(p, 81, 32)),
                cpu: OneArgument::Constant(pv(p, 80, 83150)),
            }),
        DefaultFunction::TailList => BuiltinCost::One(Costing {
                mem: OneArgument::Constant(pv(p, 172, 32)),
                cpu: OneArgument::Constant(pv(p, 171, 81663)),
            }),
        DefaultFunction::NullList => BuiltinCost::One(Costing {
                mem: OneArgument::Constant(pv(p, 129, 32)),
                cpu: OneArgument::Constant(pv(p, 128, 74433)),
            }),
        DefaultFunction::ChooseData => BuiltinCost::Six(Costing {
                mem: SixArguments::ConstantCost(pv(p, 34, 32)),
                cpu: SixArguments::ConstantCost(pv(p, 33, 94375)),
            }),
        DefaultFunction::ConstrData => BuiltinCost::Two(Costing {
                mem: TwoArguments::ConstantCost(pv(p, 44, 32)),
                cpu: TwoArguments::ConstantCost(pv(p, 43, 22151)),
            }),
        DefaultFunction::MapData => BuiltinCost::One(Costing {
                mem: OneArgument::Constant(pv(p, 105, 32)),
                cpu: OneArgument::Constant(pv(p, 104, 68246)),
            }),
        DefaultFunction::ListData => BuiltinCost::One(Costing {
                mem: OneArgument::Constant(pv(p, 103, 32)),
                cpu: OneArgument::Constant(pv(p, 102, 33852)),
            }),
        DefaultFunction::IData => BuiltinCost::One(Costing {
                mem: OneArgument::Constant(pv(p, 83, 32)),
                cpu: OneArgument::Constant(pv(p, 82, 15299)),
            }),
        DefaultFunction::BData => BuiltinCost::One(Costing {
                mem: OneArgument::Constant(pv(p, 13, 32)),
                cpu: OneArgument::Constant(pv(p, 12, 11183)),
            }),
        DefaultFunction::UnConstrData => BuiltinCost::One(Costing {
                mem: OneArgument::Constant(pv(p, 178, 32)),
                cpu: OneArgument::Constant(pv(p, 177, 24588)),
            }),
        DefaultFunction::UnMapData => BuiltinCost::One(Costing {
                mem: OneArgument::Constant(pv(p, 184, 32)),
                cpu: OneArgument::Constant(pv(p, 183, 24623)),
            }),
        DefaultFunction::UnListData => BuiltinCost::One(Costing {
                mem: OneArgument::Constant(pv(p, 182, 32)),
                cpu: OneArgument::Constant(pv(p, 181, 25933)),
            }),
        DefaultFunction::UnIData => BuiltinCost::One(Costing {
                mem: OneArgument::Constant(pv(p, 180, 32)),
                cpu: OneArgument::Constant(pv(p, 179, 20744)),
            }),
        DefaultFunction::UnBData => BuiltinCost::One(Costing {
                mem: OneArgument::Constant(pv(p, 176, 32)),
                cpu: OneArgument::Constant(pv(p, 175, 20142)),
            }),
        DefaultFunction::EqualsData => BuiltinCost::Two(Costing {
                mem: TwoArguments::ConstantCost(pv(p, 70, 1)),
                cpu: TwoArguments::MinSize(MinSize { intercept: pv(p, 68, 898148), slope: pv(p, 69, 27279) }),
            }),
        DefaultFunction::MkPairData => BuiltinCost::Two(Costing {
                mem: TwoArguments::ConstantCost(pv(p, 113, 32)),
                cpu: TwoArguments::ConstantCost(pv(p, 112, 11546)),
            }),
        DefaultFunction::MkNilData => BuiltinCost::One(Costing {
                mem: OneArgument::Constant(pv(p, 109, 32)),
                cpu: OneArgument::Constant(pv(p, 108, 7243)),
            }),
        DefaultFunction::MkNilPairData => BuiltinCost::One(Costing {
                mem: OneArgument::Constant(pv(p, 111, 32)),
                cpu: OneArgument::Constant(pv(p, 110, 7391)),
            }),
        DefaultFunction::SerialiseData => BuiltinCost::One(Costing {
                mem: OneArgument::Linear(LinearSize { intercept: pv(p, 153, 0), slope: pv(p, 154, 2) }),
                cpu: OneArgument::Linear(LinearSize { intercept: pv(p, 151, 955506), slope: pv(p, 152, 213312) }),
            }),
        DefaultFunction::VerifyEcdsaSecp256k1Signature => BuiltinCost::Three(Costing {
                mem: ThreeArguments::ConstantCost(pv(p, 186, 10)),
                cpu: ThreeArguments::ConstantCost(pv(p, 185, 43053543)),
            }),
        DefaultFunction::VerifySchnorrSecp256k1Signature => BuiltinCost::Three(Costing {
                mem: ThreeArguments::ConstantCost(pv(p, 192, 10)),
                cpu: ThreeArguments::LinearInY(LinearSize { intercept: pv(p, 190, 43574283), slope: pv(p, 191, 26308) }),
            }),
        DefaultFunction::Bls12_381_G1_Add => BuiltinCost::Two(Costing {
                mem: TwoArguments::ConstantCost(pv(p, 198, 18)),
                cpu: TwoArguments::ConstantCost(pv(p, 197, 962335)),
            }),
        DefaultFunction::Bls12_381_G1_Neg => BuiltinCost::One(Costing {
                mem: OneArgument::Constant(pv(p, 207, 18)),
                cpu: OneArgument::Constant(pv(p, 206, 267929)),
            }),
        DefaultFunction::Bls12_381_G1_ScalarMul => BuiltinCost::Two(Costing {
                mem: TwoArguments::ConstantCost(pv(p, 210, 18)),
                cpu: TwoArguments::LinearInX(LinearSize { intercept: pv(p, 208, 76433006), slope: pv(p, 209, 8868) }),
            }),
        DefaultFunction::Bls12_381_G1_Equal => BuiltinCost::Two(Costing {
                mem: TwoArguments::ConstantCost(pv(p, 202, 1)),
                cpu: TwoArguments::ConstantCost(pv(p, 201, 442008)),
            }),
        DefaultFunction::Bls12_381_G1_Compress => BuiltinCost::One(Costing {
                mem: OneArgument::Constant(pv(p, 200, 6)),
                cpu: OneArgument::Constant(pv(p, 199, 2780678)),
            }),
        DefaultFunction::Bls12_381_G1_Uncompress => BuiltinCost::One(Costing {
                mem: OneArgument::Constant(pv(p, 212, 18)),
                cpu: OneArgument::Constant(pv(p, 211, 52948122)),
            }),
        DefaultFunction::Bls12_381_G1_HashToGroup => BuiltinCost::Two(Costing {
                mem: TwoArguments::ConstantCost(pv(p, 205, 18)),
                cpu: TwoArguments::LinearInX(LinearSize { intercept: pv(p, 203, 52538055), slope: pv(p, 204, 3756) }),
            }),
        DefaultFunction::Bls12_381_G2_Add => BuiltinCost::Two(Costing {
                mem: TwoArguments::ConstantCost(pv(p, 214, 36)),
                cpu: TwoArguments::ConstantCost(pv(p, 213, 1995836)),
            }),
        DefaultFunction::Bls12_381_G2_Neg => BuiltinCost::One(Costing {
                mem: OneArgument::Constant(pv(p, 223, 36)),
                cpu: OneArgument::Constant(pv(p, 222, 284546)),
            }),
        DefaultFunction::Bls12_381_G2_ScalarMul => BuiltinCost::Two(Costing {
                mem: TwoArguments::ConstantCost(pv(p, 226, 36)),
                cpu: TwoArguments::LinearInX(LinearSize { intercept: pv(p, 224, 158221314), slope: pv(p, 225, 26549) }),
            }),
        DefaultFunction::Bls12_381_G2_Equal => BuiltinCost::Two(Costing {
                mem: TwoArguments::ConstantCost(pv(p, 218, 1)),
                cpu: TwoArguments::ConstantCost(pv(p, 217, 901022)),
            }),
        DefaultFunction::Bls12_381_G2_Compress => BuiltinCost::One(Costing {
                mem: OneArgument::Constant(pv(p, 216, 12)),
                cpu: OneArgument::Constant(pv(p, 215, 3227919)),
            }),
        DefaultFunction::Bls12_381_G2_Uncompress => BuiltinCost::One(Costing {
                mem: OneArgument::Constant(pv(p, 228, 36)),
                cpu: OneArgument::Constant(pv(p, 227, 74698472)),
            }),
        DefaultFunction::Bls12_381_G2_HashToGroup => BuiltinCost::Two(Costing {
                mem: TwoArguments::ConstantCost(pv(p, 221, 36)),
                cpu: TwoArguments::LinearInX(LinearSize { intercept: pv(p, 219, 166917843), slope: pv(p, 220, 4307) }),
            }),
        DefaultFunction::Bls12_381_MillerLoop => BuiltinCost::Two(Costing {
                mem: TwoArguments::ConstantCost(pv(p, 232, 72)),
                cpu: TwoArguments::ConstantCost(pv(p, 231, 254006273)),
            }),
        DefaultFunction::Bls12_381_MulMlResult => BuiltinCost::Two(Costing {
                mem: TwoArguments::ConstantCost(pv(p, 234, 72)),
                cpu: TwoArguments::ConstantCost(pv(p, 233, 2174038)),
            }),
        DefaultFunction::Bls12_381_FinalVerify => BuiltinCost::Two(Costing {
                mem: TwoArguments::ConstantCost(pv(p, 230, 1)),
                cpu: TwoArguments::ConstantCost(pv(p, 229, 333849714)),
            }),
        DefaultFunction::Keccak_256 => BuiltinCost::One(Costing {
                mem: OneArgument::Constant(pv(p, 237, 4)),
                cpu: OneArgument::Linear(LinearSize { intercept: pv(p, 235, 2261318), slope: pv(p, 236, 64571) }),
            }),
        DefaultFunction::Blake2b_224 => BuiltinCost::One(Costing {
                mem: OneArgument::Constant(pv(p, 240, 4)),
                cpu: OneArgument::Linear(LinearSize { intercept: pv(p, 238, 207616), slope: pv(p, 239, 8310) }),
            }),
        DefaultFunction::IntegerToByteString => BuiltinCost::Three(Costing {
                mem: ThreeArguments::LiteralInYorLinearInZ(LinearSize { intercept: pv(p, 244, 0), slope: pv(p, 245, 1) }),
                cpu: ThreeArguments::QuadraticInZ(QuadraticFunction { coeff_0: pv(p, 241, 1293828), coeff_1: pv(p, 242, 28716), coeff_2: pv(p, 243, 63) }),
            }),
        DefaultFunction::ByteStringToInteger => BuiltinCost::Two(Costing {
                mem: TwoArguments::LinearInY(LinearSize { intercept: pv(p, 249, 0), slope: pv(p, 250, 1) }),
                cpu: TwoArguments::QuadraticInY(QuadraticFunction { coeff_0: pv(p, 246, 1006041), coeff_1: pv(p, 247, 43623), coeff_2: pv(p, 248, 251) }),
            }),
        DefaultFunction::AndByteString => BuiltinCost::Three(Costing {
                mem: ThreeArguments::LinearInMaxYZ(LinearSize { intercept: pv(p, 254, 0), slope: pv(p, 255, 1) }),
                cpu: ThreeArguments::LinearInYAndZ(TwoVariableLinearSize { intercept: pv(p, 251, 100181), slope1: pv(p, 252, 726), slope2: pv(p, 253, 719) }),
            }),
        DefaultFunction::OrByteString => BuiltinCost::Three(Costing {
                mem: ThreeArguments::LinearInMaxYZ(LinearSize { intercept: pv(p, 259, 0), slope: pv(p, 260, 1) }),
                cpu: ThreeArguments::LinearInYAndZ(TwoVariableLinearSize { intercept: pv(p, 256, 100181), slope1: pv(p, 257, 726), slope2: pv(p, 258, 719) }),
            }),
        DefaultFunction::XorByteString => BuiltinCost::Three(Costing {
                mem: ThreeArguments::LinearInMaxYZ(LinearSize { intercept: pv(p, 264, 0), slope: pv(p, 265, 1) }),
                cpu: ThreeArguments::LinearInYAndZ(TwoVariableLinearSize { intercept: pv(p, 261, 100181), slope1: pv(p, 262, 726), slope2: pv(p, 263, 719) }),
            }),
        DefaultFunction::ComplementByteString => BuiltinCost::One(Costing {
                mem: OneArgument::Linear(LinearSize { intercept: pv(p, 268, 0), slope: pv(p, 269, 1) }),
                cpu: OneArgument::Linear(LinearSize { intercept: pv(p, 266, 107878), slope: pv(p, 267, 680) }),
            }),
        DefaultFunction::ReadBit => BuiltinCost::Two(Costing {
                mem: TwoArguments::ConstantCost(pv(p, 271, 1)),
                cpu: TwoArguments::ConstantCost(pv(p, 270, 95336)),
            }),
        DefaultFunction::WriteBits => BuiltinCost::Three(Costing {
                mem: ThreeArguments::LinearInX(LinearSize { intercept: pv(p, 274, 0), slope: pv(p, 275, 1) }),
                cpu: ThreeArguments::LinearInY(LinearSize { intercept: pv(p, 272, 281145), slope: pv(p, 273, 18848) }),
            }),
        DefaultFunction::ReplicateByte => BuiltinCost::Two(Costing {
                mem: TwoArguments::LinearInX(LinearSize { intercept: pv(p, 278, 1), slope: pv(p, 279, 1) }),
                cpu: TwoArguments::LinearInX(LinearSize { intercept: pv(p, 276, 180194), slope: pv(p, 277, 159) }),
            }),
        DefaultFunction::ShiftByteString => BuiltinCost::Two(Costing {
                mem: TwoArguments::LinearInX(LinearSize { intercept: pv(p, 282, 0), slope: pv(p, 283, 1) }),
                cpu: TwoArguments::LinearInX(LinearSize { intercept: pv(p, 280, 158519), slope: pv(p, 281, 8942) }),
            }),
        DefaultFunction::RotateByteString => BuiltinCost::Two(Costing {
                mem: TwoArguments::LinearInX(LinearSize { intercept: pv(p, 286, 0), slope: pv(p, 287, 1) }),
                cpu: TwoArguments::LinearInX(LinearSize { intercept: pv(p, 284, 159378), slope: pv(p, 285, 8813) }),
            }),
        DefaultFunction::CountSetBits => BuiltinCost::One(Costing {
                mem: OneArgument::Constant(pv(p, 290, 1)),
                cpu: OneArgument::Linear(LinearSize { intercept: pv(p, 288, 107490), slope: pv(p, 289, 3298) }),
            }),
        DefaultFunction::FindFirstSetBit => BuiltinCost::One(Costing {
                mem: OneArgument::Constant(pv(p, 293, 1)),
                cpu: OneArgument::Linear(LinearSize { intercept: pv(p, 291, 106057), slope: pv(p, 292, 655) }),
            }),
        DefaultFunction::Ripemd_160 => BuiltinCost::One(Costing {
                mem: OneArgument::Constant(pv(p, 296, 3)),
                cpu: OneArgument::Linear(LinearSize { intercept: pv(p, 294, 1964219), slope: pv(p, 295, 24520) }),
            }),
        DefaultFunction::ExpModInteger => BuiltinCost::Three(Costing {
                mem: ThreeArguments::LinearInZ(LinearSize { intercept: pv(p, 300, 0), slope: pv(p, 301, 1) }),
                cpu: ThreeArguments::ExpModCost(ExpModCost { coeff_00: pv(p, 297, 607153), coeff_11: pv(p, 298, 231697), coeff_12: pv(p, 299, 53144) }),
            }),
        DefaultFunction::DropList => BuiltinCost::Two(Costing {
                mem: TwoArguments::ConstantCost(pv(p, 304, 4)),
                cpu: TwoArguments::LinearInX(LinearSize { intercept: pv(p, 302, 116711), slope: pv(p, 303, 1957) }),
            }),
        DefaultFunction::LengthOfArray => BuiltinCost::One(Costing {
                mem: OneArgument::Constant(pv(p, 306, 10)),
                cpu: OneArgument::Constant(pv(p, 305, 231883)),
            }),
        DefaultFunction::ListToArray => BuiltinCost::One(Costing {
                mem: OneArgument::Linear(LinearSize { intercept: pv(p, 309, 7), slope: pv(p, 310, 1) }),
                cpu: OneArgument::Linear(LinearSize { intercept: pv(p, 307, 1000), slope: pv(p, 308, 24838) }),
            }),
        DefaultFunction::IndexArray => BuiltinCost::Two(Costing {
                mem: TwoArguments::ConstantCost(pv(p, 312, 32)),
                cpu: TwoArguments::ConstantCost(pv(p, 311, 232010)),
            }),
    }
}

/// The cost functions of `f` under the third version's parameters `p`.
#[verifier::rlimit(50)]
pub fn entry_v3(p: &[i64], f: DefaultFunction) -> (r: BuiltinCost)
    ensures
        r == spec_entry_v3(p@, f),
{
    match f {
        DefaultFunction::AddInteger => BuiltinCost::Two(Costing {
                mem: TwoArguments::MaxSize(MaxSize { intercept: param(p, 2, 1), slope: param(p, 3, 1) }),
                cpu: TwoArguments::MaxSize(MaxSize { intercept: param(p, 0, 100788), slope: param(p, 1, 420) }),
            }),
        DefaultFunction::SubtractInteger => BuiltinCost::Two(Costing {
                mem: TwoArguments::MaxSize(MaxSize { intercept: param(p, 169, 1), slope: param(p, 170, 1) }),
                cpu: TwoArguments::MaxSize(MaxSize { intercept: param(p, 167, 100788), slope: param(p, 168, 420) }),
            }),
        DefaultFunction::MultiplyInteger => BuiltinCost::Two(Costing {
                mem: TwoArguments::AddedSizes(AddedSizes { intercept: param(p, 126, 0), slope: param(p, 127, 1) }),
                cpu: TwoArguments::MultipliedSizes(MultipliedSizes { intercept: param(p, 124, 90434), slope: param(p, 125, 519) }),
            }),
        DefaultFunction::DivideInteger => BuiltinCost::Two(Costing {
                mem: TwoArguments::SubtractedSizes(SubtractedSizes { intercept: param(p, 57, 0), slope: param(p, 59, 1), minimum: param(p, 58, 1) }),
                cpu: TwoArguments::ConstAboveDiagonalIntoQuadraticXAndY(param(p, 49, 85848), TwoArgumentsQuadraticFunction { minimum: param(p, 56, 85848), coeff_00: param(p, 50, 123203), coeff_01: param(p, 51, 7305), coeff_02: param(p, 52, -900i64), coeff_10: param(p, 53, 1716), coeff_11: param(p, 54, 549), coeff_20: param(p, 55, 57) }),
            }),
        DefaultFunction::QuotientInteger => BuiltinCost::Two(Costing {
                mem: TwoArguments::SubtractedSizes(SubtractedSizes { intercept: param(p, 138, 0), slope: param(p, 140, 1), minimum: param(p, 139, 1) }),
                cpu: TwoArguments::ConstAboveDiagonalIntoQuadraticXAndY(param(p, 130, 85848), TwoArgumentsQuadraticFunction { minimum: param(p, 137, 85848), coeff_00: param(p, 131, 123203), coeff_01: param(p, 132, 7305), coeff_02: param(p, 133, -900i64), coeff_10: param(p, 134, 1716), coeff_11: param(p, 135, 549), coeff_20: param(p, 136, 57) }),
            }),
        DefaultFunction::RemainderInteger => BuiltinCost::Two(Costing {
                mem: TwoArguments::LinearInY(LinearSize { intercept: param(p, 149, 0), slope: param(p, 150, 1) }),
                cpu: TwoArguments::ConstAboveDiagonalIntoQuadraticXAndY(param(p, 141, 85848), TwoArgumentsQuadraticFunction { minimum: param(p, 148, 85848), coeff_00: param(p, 142, 123203), coeff_01: param(p, 143, 7305), coeff_02: param(p, 144, -900i64), coeff_10: param(p, 145, 1716), coeff_11: param(p, 146, 549), coeff_20: param(p, 147, 57) }),
            }),
        DefaultFunction::ModInteger => BuiltinCost::Two(Costing {
                mem: TwoArguments::LinearInY(LinearSize { intercept: param(p, 122, 0), slope: param(p, 123, 1) }),
                cpu: TwoArguments::ConstAboveDiagonalIntoQuadraticXAndY(param(p, 114, 85848), TwoArgumentsQuadraticFunction { minimum: param(p, 121, 85848), coeff_00: param(p, 115, 123203), coeff_01: param(p, 116, 7305), coeff_02: param(p, 117, -900i64), coeff_10: param(p, 118, 1716), coeff_11: param(p, 119, 549), coeff_20: param(p, 120, 57) }),
            }),
        DefaultFunction::EqualsInteger => BuiltinCost::Two(Costing {
                mem: TwoArguments::ConstantCost(param(p, 73, 1)),
                cpu: TwoArguments::MinSize(MinSize { intercept: param(p, 71, 51775), slope: param(p, 72, 558) }),
            }),
        DefaultFunction::LessThanInteger => BuiltinCost::Two(Costing {
                mem: TwoArguments::ConstantCost(param(p, 101, 1)),
                cpu: TwoArguments::MinSize(MinSize { intercept: param(p, 99, 44749), slope: param(p, 100, 541) }),
            }),
        DefaultFunction::LessThanEqualsInteger => BuiltinCost::Two(Costing {
                mem: TwoArguments::ConstantCost(param(p, 98, 1)),
                cpu: TwoArguments::MinSize(MinSize { intercept: param(p, 96, 43285), slope: param(p, 97, 552) }),
            }),
        DefaultFunction::AppendByteString => BuiltinCost::Two(Costing {
                mem: TwoArguments::AddedSizes(AddedSizes { intercept: param(p, 6, 0), slope: param(p, 7, 1) }),
                cpu: TwoArguments::AddedSizes(AddedSizes { intercept: param(p, 4, 1000), slope: param(p, 5, 173) }),
            }),
        DefaultFunction::ConsByteString => BuiltinCost::Two(Costing {
                mem: TwoArguments::AddedSizes(AddedSizes { intercept: param(p, 41, 0), slope: param(p, 42, 1) }),
                cpu: TwoArguments::LinearInY(LinearSize { intercept: param(p, 39, 72010), slope: param(p, 40, 178) }),
            }),
        DefaultFunction::SliceByteString => BuiltinCost::Three(Costing {
                mem: ThreeArguments::LinearInZ(LinearSize { intercept: param(p, 163, 4), slope: param(p, 164, 0) }),
                cpu: ThreeArguments::LinearInZ(LinearSize { intercept: param(p, 161, 20467), slope: param(p, 162, 1) }),
            }),
        DefaultFunction::LengthOfByteString => BuiltinCost::One(Costing {
                mem: OneArgument::Constant(param(p, 89, 10)),
                cpu: OneArgument::Constant(param(p, 88, 22100)),
            }),
        DefaultFunction::IndexByteString => BuiltinCost::Two(Costing {
                mem: TwoArguments::ConstantCost(param(p, 87, 4)),
                cpu: TwoArguments::ConstantCost(param(p, 86, 13169)),
            }),
        DefaultFunction::EqualsByteString => BuiltinCost::Two(Costing {
                mem: TwoArguments::ConstantCost(param(p, 67, 1)),
                cpu: TwoArguments::LinearOnDiagonal(ConstantOrLinear { constant: param(p, 64, 24548), intercept: param(p, 65, 29498), slope: param(p, 66, 38) }),
            }),
        DefaultFunction::LessThanByteString => BuiltinCost::Two(Costing {
                mem: TwoArguments::ConstantCost(param(p, 92, 1)),
                cpu: TwoArguments::MinSize(MinSize { intercept: param(p, 90, 28999), slope: param(p, 91, 74) }),
            }),
        DefaultFunction::LessThanEqualsByteString => BuiltinCost::Two(Costing {
                mem: TwoArguments::ConstantCost(param(p, 95, 1)),
                cpu: TwoArguments::MinSize(MinSize { intercept: param(p, 93, 28999), slope: param(p, 94, 74) }),
            }),
        DefaultFunction::Sha2_256 => BuiltinCost::One(Costing {
                mem: OneArgument::Constant(param(p, 157, 4)),
                cpu: OneArgument::Linear(LinearSize { intercept: param(p, 155, 270652), slope: param(p, 156, 22588) }),
            }),
        DefaultFunction::Sha3_256 => BuiltinCost::One(Costing {
                mem: OneArgument::Constant(param(p, 160, 4)),
                cpu: OneArgument::Linear(LinearSize { intercept: param(p, 158, 1457325), slope: param(p, 159, 64566) }),
            }),
        DefaultFunction::Blake2b_256 => BuiltinCost::One(Costing {
                mem: OneArgument::Constant(param(p, 16, 4)),
                cpu: OneArgument::Linear(LinearSize { intercept: param(p, 14, 201305), slope: param(p, 15, 8356) }),
            }),
        DefaultFunction::VerifyEd25519Signature => BuiltinCost::Three(Costing {
                mem: ThreeArguments::ConstantCost(param(p, 189, 10)),
                cpu: ThreeArguments::LinearInY(LinearSize { intercept: param(p, 187, 53384111), slope: param(p, 188, 14333) }),
            }),
        DefaultFunction::AppendString => BuiltinCost::Two(Costing {
                mem: TwoArguments::AddedSizes(AddedSizes { intercept: param(p, 10, 4), slope: param(p, 11, 1) }),
                cpu: TwoArguments::AddedSizes(AddedSizes { intercept: param(p, 8, 1000), slope: param(p, 9, 59957) }),
            }),
        DefaultFunction::EqualsString => BuiltinCost::Two(Costing {
                mem: TwoArguments::ConstantCost(param(p, 77, 1)),
                cpu: TwoArguments::LinearOnDiagonal(ConstantOrLinear { constant: param(p, 74, 39184), intercept: param(p, 75, 1000), slope: param(p, 76, 60594) }),
            }),
        DefaultFunction::EncodeUtf8 => BuiltinCost::One(Costing {
                mem: OneArgument::Linear(LinearSize { intercept: param(p, 62, 4), slope: param(p, 63, 2) }),
                cpu: OneArgument::Linear(LinearSize { intercept: param(p, 60, 1000), slope: param(p, 61, 42921) }),
            }),
        DefaultFunction::DecodeUtf8 => BuiltinCost::One(Costing {
                mem: OneArgument::Linear(LinearSize { intercept: param(p, 47, 4), slope: param(p, 48, 2) }),
                cpu: OneArgument::Linear(LinearSize { intercept: param(p, 45, 91189), slope: param(p, 46, 769) }),
            }),
        DefaultFunction::IfThenElse => BuiltinCost::Three(Costing {
                mem: ThreeArguments::ConstantCost(param(p, 85, 1)),
                cpu: ThreeArguments::ConstantCost(param(p, 84, 76049)),
            }),
        DefaultFunction::ChooseUnit => BuiltinCost::Two(Costing {
                mem: TwoArguments::ConstantCost(param(p, 38, 4)),
                cpu: TwoArguments::ConstantCost(param(p, 37, 61462)),
            }),
        DefaultFunction::Trace => BuiltinCost::Two(Costing {
                mem: TwoArguments::ConstantCost(param(p, 174, 32)),
                cpu: TwoArguments::ConstantCost(param(p, 173, 59498)),
            }),
        DefaultFunction::FstPair => BuiltinCost::One(Costing {
                mem: OneArgument::Constant(param(p, 79, 32)),
                cpu: OneArgument::Constant(param(p, 78, 141895)),
            }),
        DefaultFunction::SndPair => BuiltinCost::One(Costing {
                mem: OneArgument::Constant(param(p, 166, 32)),
                cpu: OneArgument::Constant(param(p, 165, 141992)),
            }),
        DefaultFunction::ChooseList => BuiltinCost::Three(Costing {
                mem: ThreeArguments::ConstantCost(param(p, 36, 32)),
                cpu: ThreeArguments::ConstantCost(param(p, 35, 132994)),
            }),
        DefaultFunction::MkCons => BuiltinCost::Two(Costing {
                mem: TwoArguments::ConstantCost(param(p, 107, 32)),
                cpu: TwoArguments::ConstantCost(param(p, 106, 72362)),
            }),
        DefaultFunction::HeadList => BuiltinCost::One(Costing {
                mem: OneArgument::Constant(param(p, 81, 32)),
                cpu: OneArgument::Constant(param(p, 80, 83150)),
            }),
        DefaultFunction::TailList => BuiltinCost::One(Costing {
                mem: OneArgument::Constant(param(p, 172, 32)),
                cpu: OneArgument::Constant(param(p, 171, 81663)),
            }),
        DefaultFunction::NullList => BuiltinCost::One(Costing {
                mem: OneArgument::Constant(param(p, 129, 32)),
                cpu: OneArgument::Constant(param(p, 128, 74433)),
            }),
        DefaultFunction::ChooseData => BuiltinCost::Six(Costing {
                mem: SixArguments::ConstantCost(param(p, 34, 32)),
                cpu: SixArguments::ConstantCost(param(p, 33, 94375)),
            }),
        DefaultFunction::ConstrData => BuiltinCost::Two(Costing {
                mem: TwoArguments::ConstantCost(param(p, 44, 32)),
                cpu: TwoArguments::ConstantCost(param(p, 43, 22151)),
            }),
        DefaultFunction::MapData => BuiltinCost::One(Costing {
                mem: OneArgument::Constant(param(p, 105, 32)),
                cpu: OneArgument::Constant(param(p, 104, 68246)),
            }),
        DefaultFunction::ListData => BuiltinCost::One(Costing {
                mem: OneArgument::Constant(param(p, 103, 32)),
                cpu: OneArgument::Constant(param(p, 102, 33852)),
            }),
        DefaultFunction::IData => BuiltinCost::One(Costing {
                mem: OneArgument::Constant(param(p, 83, 32)),
                cpu: OneArgument::Constant(param(p, 82, 15299)),
            }),
        DefaultFunction::BData => BuiltinCost::One(Costing {
                mem: OneArgument::Constant(param(p, 13, 32)),
                cpu: OneArgument::Constant(param(p, 12, 11183)),
            }),
        DefaultFunction::UnConstrData => BuiltinCost::One(Costing {
                mem: OneArgument::Constant(param(p, 178, 32)),
                cpu: OneArgument::Constant(param(p, 177, 24588)),
            }),
        DefaultFunction::UnMapData => BuiltinCost::One(Costing {
                mem: OneArgument::Constant(param(p, 184, 32)),
                cpu: OneArgument::Constant(param(p, 183, 24623)),
            }),
        DefaultFunction::UnListData => BuiltinCost::One(Costing {
                mem: OneArgument::Constant(param(p, 182, 32)),
                cpu: OneArgument::Constant(param(p, 181, 25933)),
            }),
        DefaultFunction::UnIData => BuiltinCost::One(Costing {
                mem: OneArgument::Constant(param(p, 180, 32)),
                cpu: OneArgument::Constant(param(p, 179, 20744)),
            }),
        DefaultFunction::UnBData => BuiltinCost::One(Costing {
                mem: OneArgument::Constant(param(p, 176, 32)),
                cpu: OneArgument::Constant(param(p, 175, 20142)),
            }),
        DefaultFunction::EqualsData => BuiltinCost::Two(Costing {
                mem: TwoArguments::ConstantCost(param(p, 70, 1)),
                cpu: TwoArguments::MinSize(MinSize { intercept: param(p, 68, 898148), slope: param(p, 69, 27279) }),
            }),
        DefaultFunction::MkPairData => BuiltinCost::Two(Costing {
                mem: TwoArguments::ConstantCost(param(p, 113, 32)),
                cpu: TwoArguments::ConstantCost(param(p, 112, 11546)),
            }),
        DefaultFunction::MkNilData => BuiltinCost::One(Costing {
                mem: OneArgument::Constant(param(p, 109, 32)),
                cpu: OneArgument::Constant(param(p, 108, 7243)),
            }),
        DefaultFunction::MkNilPairData => BuiltinCost::One(Costing {
                mem: OneArgument::Constant(param(p, 111, 32)),
                cpu: OneArgument::Constant(param(p, 110, 7391)),
            }),
        DefaultFunction::SerialiseData => BuiltinCost::One(Costing {
                mem: OneArgument::Linear(LinearSize { intercept: param(p, 153, 0), slope: param(p, 154, 2) }),
                cpu: OneArgument::Linear(LinearSize { intercept: param(p, 151, 955506), slope: param(p, 152, 213312) }),
            }),
        DefaultFunction::VerifyEcdsaSecp256k1Signature => BuiltinCost::Three(Costing {
                mem: ThreeArguments::ConstantCost(param(p, 186, 10)),
                cpu: ThreeArguments::ConstantCost(param(p, 185, 43053543)),
            }),
        DefaultFunction::VerifySchnorrSecp256k1Signature => BuiltinCost::Three(Costing {
                mem: ThreeArguments::ConstantCost(param(p, 192, 10)),
                cpu: ThreeArguments::LinearInY(LinearSize { intercept: param(p, 190, 43574283), slope: param(p, 191, 26308) }),
            }),
        DefaultFunction::Bls12_381_G1_Add => BuiltinCost::Two(Costing {
                mem: TwoArguments::ConstantCost(param(p, 198, 18)),
                cpu: TwoArguments::ConstantCost(param(p, 197, 962335)),
            }),
        DefaultFunction::Bls12_381_G1_Neg => BuiltinCost::One(Costing {
                mem: OneArgument::Constant(param(p, 207, 18)),
                cpu: OneArgument::Constant(param(p, 206, 267929)),
            }),
        DefaultFunction::Bls12_381_G1_ScalarMul => BuiltinCost::Two(Costing {
                mem: TwoArguments::ConstantCost(param(p, 210, 18)),
                cpu: TwoArguments::LinearInX(LinearSize { intercept: param(p, 208, 76433006), slope: param(p, 209, 8868) }),
            }),
        DefaultFunction::Bls12_381_G1_Equal => BuiltinCost::Two(Costing {
                mem: TwoArguments::ConstantCost(param(p, 202, 1)),
                cpu: TwoArguments::ConstantCost(param(p, 201, 442008)),
            }),
        DefaultFunction::Bls12_381_G1_Compress => BuiltinCost::One(Costing {
                mem: OneArgument::Constant(param(p, 200, 6)),
                cpu: OneArgument::Constant(param(p, 199, 2780678)),
            }),
        DefaultFunction::Bls12_381_G1_Uncompress => BuiltinCost::One(Costing {
                mem: OneArgument::Constant(param(p, 212, 18)),
                cpu: OneArgument::Constant(param(p, 211, 52948122)),
            }),
        DefaultFunction::Bls12_381_G1_HashToGroup => BuiltinCost::Two(Costing {
                mem: TwoArguments::ConstantCost(param(p, 205, 18)),
                cpu: TwoArguments::LinearInX(LinearSize { intercept: param(p, 203, 52538055), slope: param(p, 204, 3756) }),
            }),
        DefaultFunction::Bls12_381_G2_Add => BuiltinCost::Two(Costing {
                mem: TwoArguments::ConstantCost(param(p, 214, 36)),
                cpu: TwoArguments::ConstantCost(param(p, 213, 1995836)),
            }),
        DefaultFunction::Bls12_381_G2_Neg => BuiltinCost::One(Costing {
                mem: OneArgument::Constant(param(p, 223, 36)),
                cpu: OneArgument::Constant(param(p, 222, 284546)),
            }),
        DefaultFunction::Bls12_381_G2_ScalarMul => BuiltinCost::Two(Costing {
                mem: TwoArguments::ConstantCost(param(p, 226, 36)),
                cpu: TwoArguments::LinearInX(LinearSize { intercept: param(p, 224, 158221314), slope: param(p, 225, 26549) }),
            }),
        DefaultFunction::Bls12_381_G2_Equal => BuiltinCost::Two(Costing {
                mem: TwoArguments::ConstantCost(param(p, 218, 1)),
                cpu: TwoArguments::ConstantCost(param(p, 217, 901022)),
            }),
        DefaultFunction::Bls12_381_G2_Compress => BuiltinCost::One(Costing {
                mem: OneArgument::Constant(param(p, 216, 12)),
                cpu: OneArgument::Constant(param(p, 215, 3227919)),
            }),
        DefaultFunction::Bls12_381_G2_Uncompress => BuiltinCost::One(Costing {
                mem: OneArgument::Constant(param(p, 228, 36)),
                cpu: OneArgument::Constant(param(p, 227, 74698472)),
            }),
        DefaultFunction::Bls12_381_G2_HashToGroup => BuiltinCost::Two(Costing {
                mem: TwoArguments::ConstantCost(param(p, 221, 36)),
                cpu: TwoArguments::LinearInX(LinearSize { intercept: param(p, 219, 166917843), slope: param(p, 220, 4307) }),
            }),
        DefaultFunction::Bls12_381_MillerLoop => BuiltinCost::Two(Costing {
                mem: TwoArguments::ConstantCost(param(p, 232, 72)),
                cpu: TwoArguments::ConstantCost(param(p, 231, 254006273)),
            }),
        DefaultFunction::Bls12_381_MulMlResult => BuiltinCost::Two(Costing {
                mem: TwoArguments::ConstantCost(param(p, 234, 72)),
                cpu: TwoArguments::ConstantCost(param(p, 233, 2174038)),
            }),
        DefaultFunction::Bls12_381_FinalVerify => BuiltinCost::Two(Costing {
                mem: TwoArguments::ConstantCost(param(p, 230, 1)),
                cpu: TwoArguments::ConstantCost(param(p, 229, 333849714)),
            }),
        DefaultFunction::Keccak_256 => BuiltinCost::One(Costing {
                mem: OneArgument::Constant(param(p, 237, 4)),
                cpu: OneArgument::Linear(LinearSize { intercept: param(p, 235, 2261318), slope: param(p, 236, 64571) }),
            }),
        DefaultFunction::Blake2b_224 => BuiltinCost::One(Costing {
                mem: OneArgument::Constant(param(p, 240, 4)),
                cpu: OneArgument::Linear(LinearSize { intercept: param(p, 238, 207616), slope: param(p, 239, 8310) }),
            }),
        DefaultFunction::IntegerToByteString => BuiltinCost::Three(Costing {
                mem: ThreeArguments::LiteralInYorLinearInZ(LinearSize { intercept: param(p, 244, 0), slope: param(p, 245, 1) }),
                cpu: ThreeArguments::QuadraticInZ(QuadraticFunction { coeff_0: param(p, 241, 1293828), coeff_1: param(p, 242, 28716), coeff_2: param(p, 243, 63) }),
            }),
        DefaultFunction::ByteStringToInteger => BuiltinCost::Two(Costing {
                mem: TwoArguments::LinearInY(LinearSize { intercept: param(p, 249, 0), slope: param(p, 250, 1) }),
                cpu: TwoArguments::QuadraticInY(QuadraticFunction { coeff_0: param(p, 246, 1006041), coeff_1: param(p, 247, 43623), coeff_2: param(p, 248, 251) }),
            }),
        DefaultFunction::AndByteString => BuiltinCost::Three(Costing {
                mem: ThreeArguments::LinearInMaxYZ(LinearSize { intercept: param(p, 254, 0), slope: param(p, 255, 1) }),
                cpu: ThreeArguments::LinearInYAndZ(TwoVariableLinearSize { intercept: param(p, 251, 100181), slope1: param(p, 252, 726), slope2: param(p, 253, 719) }),
            }),
        DefaultFunction::OrByteString => BuiltinCost::Three(Costing {
                mem: ThreeArguments::LinearInMaxYZ(LinearSize { intercept: param(p, 259, 0), slope: param(p, 260, 1) }),
                cpu: ThreeArguments::LinearInYAndZ(TwoVariableLinearSize { intercept: param(p, 256, 100181), slope1: param(p, 257, 726), slope2: param(p, 258, 719) }),
            }),
        DefaultFunction::XorByteString => BuiltinCost::Three(Costing {
                mem: ThreeArguments::LinearInMaxYZ(LinearSize { intercept: param(p, 264, 0), slope: param(p, 265, 1) }),
                cpu: ThreeArguments::LinearInYAndZ(TwoVariableLinearSize { intercept: param(p, 261, 100181), slope1: param(p, 262, 726), slope2: param(p, 263, 719) }),
            }),
        DefaultFunction::ComplementByteString => BuiltinCost::One(Costing {
                mem: OneArgument::Linear(LinearSize { intercept: param(p, 268, 0), slope: param(p, 269, 1) }),
                cpu: OneArgument::Linear(LinearSize { intercept: param(p, 266, 107878), slope: param(p, 267, 680) }),
            }),
        DefaultFunction::ReadBit => BuiltinCost::Two(Costing {
                mem: TwoArguments::ConstantCost(param(p, 271, 1)),
                cpu: TwoArguments::ConstantCost(param(p, 270, 95336)),
            }),
        DefaultFunction::WriteBits => BuiltinCost::Three(Costing {
                mem: ThreeArguments::LinearInX(LinearSize { intercept: param(p, 274, 0), slope: param(p, 275, 1) }),
                cpu: ThreeArguments::LinearInY(LinearSize { intercept: param(p, 272, 281145), slope: param(p, 273, 18848) }),
            }),
        DefaultFunction::ReplicateByte => BuiltinCost::Two(Costing {
                mem: TwoArguments::LinearInX(LinearSize { intercept: param(p, 278, 1), slope: param(p, 279, 1) }),
                cpu: TwoArguments::LinearInX(LinearSize { intercept: param(p, 276, 180194), slope: param(p, 277, 159) }),
            }),
        DefaultFunction::ShiftByteString => BuiltinCost::Two(Costing {
                mem: TwoArguments::LinearInX(LinearSize { intercept: param(p, 282, 0), slope: param(p, 283, 1) }),
                cpu: TwoArguments::LinearInX(LinearSize { intercept: param(p, 280, 158519), slope: param(p, 281, 8942) }),
            }),
        DefaultFunction::RotateByteString => BuiltinCost::Two(Costing {
                mem: TwoArguments::LinearInX(LinearSize { intercept: param(p, 286, 0), slope: param(p, 287, 1) }),
                cpu: TwoArguments::LinearInX(LinearSize { intercept: param(p, 284, 159378), slope: param(p, 285, 8813) }),
            }),
        DefaultFunction::CountSetBits => BuiltinCost::One(Costing {
                mem: OneArgument::Constant(param(p, 290, 1)),
                cpu: OneArgument::Linear(LinearSize { intercept: param(p, 288, 107490), slope: param(p, 289, 3298) }),
            }),
        DefaultFunction::FindFirstSetBit => BuiltinCost::One(Costing {
                mem: OneArgument::Constant(param(p, 293, 1)),
                cpu: OneArgument::Linear(LinearSize { intercept: param(p, 291, 106057), slope: param(p, 292, 655) }),
            }),
        DefaultFunction::Ripemd_160 => BuiltinCost::One(Costing {
                mem: OneArgument::Constant(param(p, 296, 3)),
                cpu: OneArgument::Linear(LinearSize { intercept: param(p, 294, 1964219), slope: param(p, 295, 24520) }),
            }),
        DefaultFunction::ExpModInteger => BuiltinCost::Three(Costing {
                mem: ThreeArguments::LinearInZ(LinearSize { intercept: param(p, 300, 0), slope: param(p, 301, 1) }),
                cpu: ThreeArguments::ExpModCost(ExpModCost { coeff_00: param(p, 297, 607153), coeff_11: param(p, 298, 231697), coeff_12: param(p, 299, 53144) }),
            }),
        DefaultFunction::DropList => BuiltinCost::Two(Costing {
                mem: TwoArguments::ConstantCost(param(p, 304, 4)),
                cpu: TwoArguments::LinearInX(LinearSize { intercept: param(p, 302, 116711), slope: param(p, 303, 1957) }),
            }),
        DefaultFunction::LengthOfArray => BuiltinCost::One(Costing {
                mem: OneArgument::Constant(param(p, 306, 10)),
                cpu: OneArgument::Constant(param(p, 305, 231883)),
            }),
        DefaultFunction::ListToArray => BuiltinCost::One(Costing {
                mem: OneArgument::Linear(LinearSize { intercept: param(p, 309, 7), slope: param(p, 310, 1) }),
                cpu: OneArgument::Linear(LinearSize { intercept: param(p, 307, 1000), slope: param(p, 308, 24838) }),
            }),
        DefaultFunction::IndexArray => BuiltinCost::Two(Costing {
                mem: TwoArguments::ConstantCost(param(p, 312, 32)),
                cpu: TwoArguments::ConstantCost(param(p, 311, 232010)),
            }),
    }
}

/// The cost of the step kind at position `i` under the first version's
/// parameters `p`.
pub open spec fn spec_step_v1(p: Seq<i64>, i: int) -> ExBudget {
    if i == 0 {
        ExBudget { mem: pv(p, 22, 100), cpu: pv(p, 21, 16000) }
    } else if i == 1 {
        ExBudget { mem: pv(p, 32, 100), cpu: pv(p, 31, 16000) }
    } else if i == 2 {
        ExBudget { mem: pv(p, 28, 100), cpu: pv(p, 27, 16000) }
    } else if i == 3 {
        ExBudget { mem: pv(p, 18, 100), cpu: pv(p, 17, 16000) }
    } else if i == 4 {
        ExBudget { mem: pv(p, 24, 100), cpu: pv(p, 23, 16000) }
    } else if i == 5 {
        ExBudget { mem: pv(p, 26, 100), cpu: pv(p, 25, 16000) }
    } else if i == 6 {
        ExBudget { mem: pv(p, 20, 100), cpu: pv(p, 19, 16000) }
    } else if i == 7 {
        ExBudget { mem: 100, cpu: 16000 }
    } else if i == 8 {
        ExBudget { mem: 100, cpu: 16000 }
    } else {
        ExBudget { mem: 0, cpu: 0 }
    }
}

/// The start-up cost under the first version's parameters `p`.
pub open spec fn spec_startup_v1(p: Seq<i64>) -> ExBudget {
    ExBudget { mem: pv(p, 30, 100), cpu: pv(p, 29, 100) }
}

/// The step costs and the start-up cost under the first version's
/// parameters `p`.
pub fn steps_v1(p: &[i64]) -> (r: ([ExBudget; 9], ExBudget))
    ensures
        forall|i: int| 0 <= i < 9 ==> r.0@[i] == spec_step_v1(p@, i),
        r.1 == spec_startup_v1(p@),
{
    let steps = [
        ExBudget { mem: param(p, 22, 100), cpu: param(p, 21, 16000) },
        ExBudget { mem: param(p, 32, 100), cpu: param(p, 31, 16000) },
        ExBudget { mem: param(p, 28, 100), cpu: param(p, 27, 16000) },
        ExBudget { mem: param(p, 18, 100), cpu: param(p, 17, 16000) },
        ExBudget { mem: param(p, 24, 100), cpu: param(p, 23, 16000) },
        ExBudget { mem: param(p, 26, 100), cpu: param(p, 25, 16000) },
        ExBudget { mem: param(p, 20, 100), cpu: param(p, 19, 16000) },
        ExBudget { mem: 100, cpu: 16000 },
        ExBudget { mem: 100, cpu: 16000 },
    ];
    let startup = ExBudget { mem: param(p, 30, 100), cpu: param(p, 29, 100) };
    (steps, startup)
}

/// The cost of the step kind at position `i` under the second version's
/// parameters `p`.
pub open spec fn spec_step_v2(p: Seq<i64>, i: int) -> ExBudget {
    if i == 0 {
        ExBudget { mem: pv(p, 22, 100), cpu: pv(p, 21, 16000) }
    } else if i == 1 {
        ExBudget { mem: pv(p, 32, 100), cpu: pv(p, 31, 16000) }
    } else if i == 2 {
        ExBudget { mem: pv(p, 28, 100), cpu: pv(p, 27, 16000) }
    } else if i == 3 {
        ExBudget { mem: pv(p, 18, 100), cpu: pv(p, 17, 16000) }
    } else if i == 4 {
        ExBudget { mem: pv(p, 24, 100), cpu: pv(p, 23, 16000) }
    } else if i == 5 {
        ExBudget { mem: pv(p, 26, 100), cpu: pv(p, 25, 16000) }
    } else if i == 6 {
        ExBudget { mem: pv(p, 20, 100), cpu: pv(p, 19, 16000) }
    } else if i == 7 {
        ExBudget { mem: 100, cpu: 16000 }
    } else if i == 8 {
        ExBudget { mem: 100, cpu: 16000 }
    } else {
        ExBudget { mem: 0, cpu: 0 }
    }
}

/// The start-up cost under the second version's parameters `p`.
pub open spec fn spec_startup_v2(p: Seq<i64>) -> ExBudget {
    ExBudget { mem: pv(p, 30, 100), cpu: pv(p, 29, 100) }
}

/// The step costs and the start-up cost under the second version's
/// parameters `p`.
pub fn steps_v2(p: &[i64]) -> (r: ([ExBudget; 9], ExBudget))
    ensures
        forall|i: int| 0 <= i < 9 ==> r.0@[i] == spec_step_v2(p@, i),
        r.1 == spec_startup_v2(p@),
{
    let steps = [
        ExBudget { mem: param(p, 22, 100), cpu: param(p, 21, 16000) },
        ExBudget { mem: param(p, 32, 100), cpu: param(p, 31, 16000) },
        ExBudget { mem: param(p, 28, 100), cpu: param(p, 27, 16000) },
        ExBudget { mem: param(p, 18, 100), cpu: param(p, 17, 16000) },
        ExBudget { mem: param(p, 24, 100), cpu: param(p, 23, 16000) },
        ExBudget { mem: param(p, 26, 100), cpu: param(p, 25, 16000) },
        ExBudget { mem: param(p, 20, 100), cpu: param(p, 19, 16000) },
        ExBudget { mem: 100, cpu: 16000 },
        ExBudget { mem: 100, cpu: 16000 },
    ];
    let startup = ExBudget { mem: param(p, 30, 100), cpu: param(p, 29, 100) };
    (steps, startup)
}

/// The cost of the step kind at position `i` under the third version's
/// parameters `p`.
pub open spec fn spec_step_v3(p: Seq<i64>, i: int) -> ExBudget {
    if i == 0 {
        ExBudget { mem: pv(p, 22, 100), cpu: pv(p, 21, 16000) }
    } else if i == 1 {
        ExBudget { mem: pv(p, 32, 100), cpu: pv(p, 31, 16000) }
    } else if i == 2 {
        ExBudget { mem: pv(p, 28, 100), cpu: pv(p, 27, 16000) }
    } else if i == 3 {
        ExBudget { mem: pv(p, 18, 100), cpu: pv(p, 17, 16000) }
    } else if i == 4 {
        ExBudget { mem: pv(p, 24, 100), cpu: pv(p, 23, 16000) }
    } else if i == 5 {
        ExBudget { mem: pv(p, 26, 100), cpu: pv(p, 25, 16000) }
    } else if i == 6 {
        ExBudget { mem: pv(p, 20, 100), cpu: pv(p, 19, 16000) }
    } else if i == 7 {
        ExBudget { mem: pv(p, 194, 100), cpu: pv(p, 193, 16000) }
    } else if i == 8 {
        ExBudget { mem: pv(p, 196, 100), cpu: pv(p, 195, 16000) }
    } else {
        ExBudget { mem: 0, cpu: 0 }
    }
}

/// The start-up cost under the third version's parameters `p`.
pub open spec fn spec_startup_v3(p: Seq<i64>) -> ExBudget {
    ExBudget { mem: pv(p, 30, 100), cpu: pv(p, 29, 100) }
}

/// The step costs and the start-up cost under the third version's
/// parameters `p`.
pub fn steps_v3(p: &[i64]) -> (r: ([ExBudget; 9], ExBudget))
    ensures
        forall|i: int| 0 <= i < 9 ==> r.0@[i] == spec_step_v3(p@, i),
        r.1 == spec_startup_v3(p@),
{
    let steps = [
        ExBudget { mem: param(p, 22, 100), cpu: param(p, 21, 16000) },
        ExBudget { mem: param(p, 32, 100), cpu: param(p, 31, 16000) },
        ExBudget { mem: param(p, 28, 100), cpu: param(p, 27, 16000) },
        ExBudget { mem: param(p, 18, 100), cpu: param(p, 17, 16000) },
        ExBudget { mem: param(p, 24, 100), cpu: param(p, 23, 16000) },
        ExBudget { mem: param(p, 26, 100), cpu: param(p, 25, 16000) },
        ExBudget { mem: param(p, 20, 100), cpu: param(p, 19, 16000) },
        ExBudget { mem: param(p, 194, 100), cpu: param(p, 193, 16000) },
        ExBudget { mem: param(p, 196, 100), cpu: param(p, 195, 16000) },
    ];
    let startup = ExBudget { mem: param(p, 30, 100), cpu: param(p, 29, 100) };
    (steps, startup)
}

} // verus!
