//! What each built-in computes and charges, over mathematical values.

use vstd::prelude::*;
use vstd::utf8::{decode_utf8, encode_utf8, valid_utf8};

use crate::builtin::{BuiltinSemantics, DefaultFunction};
use crate::constant::{ConstantV, DataV, Type};
use crate::cost_model::builtin_costs::BuiltinCosts;
use crate::cost_model::ex_budget::ExBudget;
use crate::cost_model::value::{
    spec_byte_string_ex_mem, spec_constant_ex_mem, spec_integer_ex_mem, BOOL_EX_MEM, UNIT_EX_MEM,
};
use crate::integer::{exp_mod, floor_div, floor_mod, trunc_div, trunc_rem};

use super::bitwise::{
    bit_at, bit_in_range, bytes_integer, complement_bytes, count_bits, first_set_bit,
    integer_bytes, padded_bytes, replicate_bytes, rotate_bytes, set_bit, shift_bytes,
};
use super::crypto::{
    blake2b_224_of, blake2b_256_of, ecdsa_secp256k1_outcome, ed25519_valid, keccak_256_of,
    ripemd_160_of, schnorr_secp256k1_outcome, sha2_256_of, sha3_256_of,
};
use super::error::{MachineError, RuntimeError};
use super::value::ValueV;

verus! {

/// What a built-in call does to the budget and what it gives.
pub enum CallOutcome {
    /// It failed before charging anything.
    Failed(MachineError),
    /// It charged `cost`, then gave this result.
    Charged(ExBudget, Result<ValueV, MachineError>),
    /// It gave this result without charging.
    Uncharged(Result<ValueV, MachineError>),
}

/// The built-ins that evaluation implements. The BLS12-381 built-ins (the
/// group operations, pairings and their conversions) and `serialiseData` are
/// not implemented: calling one of them gives
/// [`MachineError::UnimplementedBuiltin`](super::error::MachineError).
pub open spec fn call_supported(f: DefaultFunction) -> bool {
    match f {
        DefaultFunction::AddInteger => true,
        DefaultFunction::SubtractInteger => true,
        DefaultFunction::MultiplyInteger => true,
        DefaultFunction::DivideInteger => true,
        DefaultFunction::QuotientInteger => true,
        DefaultFunction::RemainderInteger => true,
        DefaultFunction::ModInteger => true,
        DefaultFunction::EqualsInteger => true,
        DefaultFunction::LessThanInteger => true,
        DefaultFunction::LessThanEqualsInteger => true,
        DefaultFunction::AppendByteString => true,
        DefaultFunction::ConsByteString => true,
        DefaultFunction::SliceByteString => true,
        DefaultFunction::LengthOfByteString => true,
        DefaultFunction::IndexByteString => true,
        DefaultFunction::EqualsByteString => true,
        DefaultFunction::LessThanByteString => true,
        DefaultFunction::LessThanEqualsByteString => true,
        DefaultFunction::Sha2_256 => true,
        DefaultFunction::Sha3_256 => true,
        DefaultFunction::Blake2b_256 => true,
        DefaultFunction::Keccak_256 => true,
        DefaultFunction::Blake2b_224 => true,
        DefaultFunction::VerifyEd25519Signature => true,
        DefaultFunction::EqualsString => true,
        DefaultFunction::EncodeUtf8 => true,
        DefaultFunction::DecodeUtf8 => true,
        DefaultFunction::AppendString => true,
        DefaultFunction::Trace => true,
        DefaultFunction::VerifyEcdsaSecp256k1Signature => true,
        DefaultFunction::VerifySchnorrSecp256k1Signature => true,
        DefaultFunction::IfThenElse => true,
        DefaultFunction::ChooseUnit => true,
        DefaultFunction::FstPair => true,
        DefaultFunction::SndPair => true,
        DefaultFunction::ChooseList => true,
        DefaultFunction::MkCons => true,
        DefaultFunction::HeadList => true,
        DefaultFunction::TailList => true,
        DefaultFunction::NullList => true,
        DefaultFunction::ChooseData => true,
        DefaultFunction::ConstrData => true,
        DefaultFunction::ListData => true,
        DefaultFunction::IData => true,
        DefaultFunction::BData => true,
        DefaultFunction::UnConstrData => true,
        DefaultFunction::UnListData => true,
        DefaultFunction::UnIData => true,
        DefaultFunction::UnBData => true,
        DefaultFunction::EqualsData => true,
        DefaultFunction::MkPairData => true,
        DefaultFunction::MkNilData => true,
        DefaultFunction::MkNilPairData => true,
        DefaultFunction::AndByteString => true,
        DefaultFunction::OrByteString => true,
        DefaultFunction::XorByteString => true,
        DefaultFunction::ExpModInteger => true,
        DefaultFunction::ComplementByteString => true,
        DefaultFunction::ReadBit => true,
        DefaultFunction::WriteBits => true,
        DefaultFunction::ReplicateByte => true,
        DefaultFunction::ShiftByteString => true,
        DefaultFunction::RotateByteString => true,
        DefaultFunction::CountSetBits => true,
        DefaultFunction::FindFirstSetBit => true,
        DefaultFunction::IntegerToByteString => true,
        DefaultFunction::ByteStringToInteger => true,
        DefaultFunction::Ripemd_160 => true,
        DefaultFunction::MapData => true,
        DefaultFunction::UnMapData => true,
        DefaultFunction::DropList => true,
        DefaultFunction::LengthOfArray => true,
        DefaultFunction::ListToArray => true,
        DefaultFunction::IndexArray => true,
        _ => false,
    }
}

/// The constant of a value.
pub open spec fn as_constant(v: ValueV) -> Result<ConstantV, MachineError> {
    match v {
        ValueV::Con(c) => Ok(c),
        _ => Err(MachineError::NotAConstant),
    }
}

/// The integer of a value.
pub open spec fn as_integer(v: ValueV) -> Result<int, MachineError> {
    match v {
        ValueV::Con(ConstantV::Integer(i)) => Ok(i),
        ValueV::Con(_) => Err(MachineError::Runtime(RuntimeError::TypeMismatch)),
        _ => Err(MachineError::NotAConstant),
    }
}

/// The bytes of a value.
pub open spec fn as_bytes(v: ValueV) -> Result<Seq<u8>, MachineError> {
    match v {
        ValueV::Con(ConstantV::ByteString(b)) => Ok(b),
        ValueV::Con(_) => Err(MachineError::Runtime(RuntimeError::TypeMismatch)),
        _ => Err(MachineError::NotAConstant),
    }
}

/// The string of a value.
pub open spec fn as_string(v: ValueV) -> Result<Seq<char>, MachineError> {
    match v {
        ValueV::Con(ConstantV::String(s)) => Ok(s),
        ValueV::Con(_) => Err(MachineError::Runtime(RuntimeError::TypeMismatch)),
        _ => Err(MachineError::NotAConstant),
    }
}

/// The boolean of a value.
pub open spec fn as_bool(v: ValueV) -> Result<bool, MachineError> {
    match v {
        ValueV::Con(ConstantV::Boolean(b)) => Ok(b),
        ValueV::Con(_) => Err(MachineError::Runtime(RuntimeError::TypeMismatch)),
        _ => Err(MachineError::NotAConstant),
    }
}

/// Whether a value is the unit constant.
pub open spec fn as_unit(v: ValueV) -> Result<(), MachineError> {
    match v {
        ValueV::Con(ConstantV::Unit) => Ok(()),
        ValueV::Con(_) => Err(MachineError::Runtime(RuntimeError::TypeMismatch)),
        _ => Err(MachineError::NotAConstant),
    }
}

/// The type and items of a list value.
pub open spec fn as_list(v: ValueV) -> Result<(Type, Seq<ConstantV>), MachineError> {
    match v {
        ValueV::Con(ConstantV::ProtoList(t, items)) => Ok((t, items)),
        ValueV::Con(_) => Err(MachineError::Runtime(RuntimeError::ExpectedList)),
        _ => Err(MachineError::NotAConstant),
    }
}

/// The components of a pair value.
pub open spec fn as_pair(v: ValueV) -> Result<(ConstantV, ConstantV), MachineError> {
    match v {
        ValueV::Con(ConstantV::ProtoPair(_, _, a, b)) => Ok((*a, *b)),
        ValueV::Con(_) => Err(MachineError::Runtime(RuntimeError::ExpectedPair)),
        _ => Err(MachineError::NotAConstant),
    }
}

/// The data item of a value.
pub open spec fn as_data(v: ValueV) -> Result<DataV, MachineError> {
    match v {
        ValueV::Con(ConstantV::Data(d)) => Ok(d),
        ValueV::Con(_) => Err(MachineError::Runtime(RuntimeError::NotData)),
        _ => Err(MachineError::NotAConstant),
    }
}

/// The memory size of a value: that of its constant, else 1.
pub open spec fn spec_value_ex_mem(v: ValueV) -> i64 {
    match v {
        ValueV::Con(c) => spec_constant_ex_mem(c),
        _ => 1,
    }
}

/// The type of a constant.
pub open spec fn type_of(c: ConstantV) -> Type {
    match c {
        ConstantV::Integer(_) => Type::Integer,
        ConstantV::ByteString(_) => Type::ByteString,
        ConstantV::String(_) => Type::String,
        ConstantV::Boolean(_) => Type::Bool,
        ConstantV::Data(_) => Type::Data,
        ConstantV::ProtoList(t, _) => Type::List(Box::new(t)),
        ConstantV::ProtoArray(t, _) => Type::Array(Box::new(t)),
        ConstantV::ProtoPair(t1, t2, _, _) => Type::Pair(Box::new(t1), Box::new(t2)),
        ConstantV::Unit => Type::Unit,
    }
}

/// Whether `a` comes strictly before `b` in lexicographic order.
pub open spec fn bytes_lt(a: Seq<u8>, b: Seq<u8>) -> bool
    decreases a.len(),
{
    if b.len() == 0 {
        false
    } else if a.len() == 0 {
        true
    } else if a[0] != b[0] {
        a[0] < b[0]
    } else {
        bytes_lt(a.subrange(1, a.len() as int), b.subrange(1, b.len() as int))
    }
}

/// The items of a data-typed list, when they are all data.
pub open spec fn list_datas(items: Seq<ConstantV>) -> Option<Seq<DataV>>
    decreases items.len(),
{
    if items.len() == 0 {
        Some(Seq::empty())
    } else {
        match (items.last(), list_datas(items.drop_last())) {
            (ConstantV::Data(d), Some(ds)) => Some(ds.push(d)),
            _ => None,
        }
    }
}

/// Data items as data constants.
pub open spec fn data_constants(ds: Seq<DataV>) -> Seq<ConstantV> {
    Seq::new(ds.len(), |k: int| ConstantV::Data(ds[k]))
}

/// An integer value.
pub open spec fn int_value(i: int) -> ValueV {
    ValueV::Con(ConstantV::Integer(i))
}

/// A boolean value.
pub open spec fn bool_value(b: bool) -> ValueV {
    ValueV::Con(ConstantV::Boolean(b))
}

/// A byte-string value.
pub open spec fn bytes_value(b: Seq<u8>) -> ValueV {
    ValueV::Con(ConstantV::ByteString(b))
}

/// The sizes of two integer arguments.
pub open spec fn int_sizes(a: int, b: int) -> Seq<i64> {
    seq![spec_integer_ex_mem(a) as i64, spec_integer_ex_mem(b) as i64]
}

/// The size of a byte-string argument.
pub open spec fn bytes_size(b: Seq<u8>) -> i64 {
    spec_byte_string_ex_mem(b.len() as int) as i64
}

/// A two-integer built-in: charges for both sizes, then computes `r`.
pub open spec fn int_binary(
    costs: BuiltinCosts,
    f: DefaultFunction,
    args: Seq<ValueV>,
    r: spec_fn(int, int) -> Result<ValueV, MachineError>,
) -> CallOutcome {
    match as_integer(args[0]) {
        Err(e) => CallOutcome::Failed(e),
        Ok(a) => match as_integer(args[1]) {
            Err(e) => CallOutcome::Failed(e),
            Ok(b) => CallOutcome::Charged(costs.spec_cost(f, int_sizes(a, b)), r(a, b)),
        },
    }
}

/// A two-byte-string built-in: charges for both sizes, then computes `r`.
pub open spec fn bytes_binary(
    costs: BuiltinCosts,
    f: DefaultFunction,
    args: Seq<ValueV>,
    r: spec_fn(Seq<u8>, Seq<u8>) -> ValueV,
) -> CallOutcome {
    match as_bytes(args[0]) {
        Err(e) => CallOutcome::Failed(e),
        Ok(a) => match as_bytes(args[1]) {
            Err(e) => CallOutcome::Failed(e),
            Ok(b) => CallOutcome::Charged(
                costs.spec_cost(f, seq![bytes_size(a), bytes_size(b)]),
                Ok(r(a, b)),
            ),
        },
    }
}

/// A one-byte-string built-in: charges for its size, then computes `r`.
pub open spec fn bytes_unary(
    costs: BuiltinCosts,
    f: DefaultFunction,
    args: Seq<ValueV>,
    r: spec_fn(Seq<u8>) -> Result<ValueV, MachineError>,
) -> CallOutcome {
    match as_bytes(args[0]) {
        Err(e) => CallOutcome::Failed(e),
        Ok(a) => CallOutcome::Charged(costs.spec_cost(f, seq![bytes_size(a)]), r(a)),
    }
}

/// A three-byte-string built-in: charges for the three sizes, then
/// computes `r`.
pub open spec fn bytes_ternary(
    costs: BuiltinCosts,
    f: DefaultFunction,
    args: Seq<ValueV>,
    r: spec_fn(Seq<u8>, Seq<u8>, Seq<u8>) -> Result<ValueV, MachineError>,
) -> CallOutcome {
    match as_bytes(args[0]) {
        Err(e) => CallOutcome::Failed(e),
        Ok(a) => match as_bytes(args[1]) {
            Err(e) => CallOutcome::Failed(e),
            Ok(b) => match as_bytes(args[2]) {
                Err(e) => CallOutcome::Failed(e),
                Ok(c) => CallOutcome::Charged(
                    costs.spec_cost(f, seq![bytes_size(a), bytes_size(b), bytes_size(c)]),
                    r(a, b, c),
                ),
            },
        },
    }
}

/// The result of a secp256k1 check: the verdict, or the refusal of an
/// argument.
pub open spec fn secp256k1_result(o: Option<bool>) -> Result<ValueV, MachineError> {
    match o {
        Some(valid) => Ok(bool_value(valid)),
        None => Err(MachineError::Runtime(RuntimeError::Secp256k1)),
    }
}

/// A division-like built-in: fails on a zero divisor after charging.
pub open spec fn division(
    costs: BuiltinCosts,
    f: DefaultFunction,
    args: Seq<ValueV>,
    q: spec_fn(int, int) -> int,
) -> CallOutcome {
    int_binary(
        costs,
        f,
        args,
        |a: int, b: int|
            if b == 0 {
                Err(MachineError::Runtime(RuntimeError::DivisionByZero))
            } else {
                Ok(int_value(q(a, b)))
            },
    )
}

/// The skip or take count of `sliceByteString`: 0 for negatives, at most
/// `usize::MAX`.
pub open spec fn slice_count(i: int) -> nat {
    if i < 0 {
        0
    } else if i > usize::MAX {
        usize::MAX as nat
    } else {
        i as nat
    }
}

/// The slice of `b` that skips `skip` bytes and keeps at most `take`.
pub open spec fn slice_bytes(b: Seq<u8>, skip: nat, take: nat) -> Seq<u8> {
    let start = if skip < b.len() { skip } else { b.len() };
    let end = if start + take < b.len() { start + take } else { b.len() };
    b.subrange(start as int, end as int)
}

/// The byte that the bitwise built-in `f` makes of `x` and `y`: their
/// and, or, or exclusive or.
pub open spec fn combine_byte(f: DefaultFunction, x: u8, y: u8) -> u8 {
    match f {
        DefaultFunction::AndByteString => x & y,
        DefaultFunction::OrByteString => x | y,
        _ => x ^ y,
    }
}

/// The bytes that the bitwise built-in `f` makes of `a` and `b`, index by
/// index from the first byte. Without padding the result is as long as
/// the shorter argument; with padding it is as long as the longer, whose
/// bytes past the end of the shorter it keeps.
pub open spec fn bitwise_bytes(f: DefaultFunction, pad: bool, a: Seq<u8>, b: Seq<u8>) -> Seq<u8> {
    let n = if pad == (a.len() >= b.len()) {
        a.len()
    } else {
        b.len()
    };
    Seq::new(
        n,
        |i: int|
            if i < a.len() && i < b.len() {
                combine_byte(f, a[i], b[i])
            } else if i < a.len() {
                a[i]
            } else {
                b[i]
            },
    )
}

/// A bitwise built-in: a padding flag and two byte strings; charges for
/// the three sizes.
pub open spec fn bitwise(costs: BuiltinCosts, f: DefaultFunction, args: Seq<ValueV>) -> CallOutcome {
    match as_bool(args[0]) {
        Err(e) => CallOutcome::Failed(e),
        Ok(pad) => match as_bytes(args[1]) {
            Err(e) => CallOutcome::Failed(e),
            Ok(a) => match as_bytes(args[2]) {
                Err(e) => CallOutcome::Failed(e),
                Ok(b) => CallOutcome::Charged(
                    costs.spec_cost(f, seq![BOOL_EX_MEM, bytes_size(a), bytes_size(b)]),
                    Ok(bytes_value(bitwise_bytes(f, pad, a, b))),
                ),
            },
        },
    }
}

/// `expModInteger` on a base, an exponent and a modulus: charges for the
/// three sizes, then gives [`exp_mod`] or its error.
pub open spec fn exp_mod_call(costs: BuiltinCosts, f: DefaultFunction, args: Seq<ValueV>) -> CallOutcome {
    match as_integer(args[0]) {
        Err(x) => CallOutcome::Failed(x),
        Ok(b) => match as_integer(args[1]) {
            Err(x) => CallOutcome::Failed(x),
            Ok(e) => match as_integer(args[2]) {
                Err(x) => CallOutcome::Failed(x),
                Ok(m) => CallOutcome::Charged(
                    costs.spec_cost(
                        f,
                        seq![spec_integer_ex_mem(b) as i64, spec_integer_ex_mem(e) as i64, spec_integer_ex_mem(m) as i64],
                    ),
                    match exp_mod(b, e, m) {
                        Some(v) => Ok(int_value(v)),
                        None => if m <= 0 {
                            Err(MachineError::Runtime(RuntimeError::ExpModIntegerInvalidModulus))
                        } else {
                            Err(MachineError::Runtime(RuntimeError::ExpModIntegerNotInvertible))
                        },
                    },
                ),
            },
        },
    }
}

/// The items and type of an array value.
pub open spec fn as_array(v: ValueV) -> Result<(Type, Seq<ConstantV>), MachineError> {
    match v {
        ValueV::Con(ConstantV::ProtoArray(t, items)) => Ok((t, items)),
        ValueV::Con(_) => Err(MachineError::Runtime(RuntimeError::ExpectedArray)),
        _ => Err(MachineError::NotAConstant),
    }
}

/// A built-in on a byte string and an integer: charges for both sizes,
/// then computes `r`.
pub open spec fn bytes_int(
    costs: BuiltinCosts,
    f: DefaultFunction,
    args: Seq<ValueV>,
    r: spec_fn(Seq<u8>, int) -> Result<ValueV, MachineError>,
) -> CallOutcome {
    match as_bytes(args[0]) {
        Err(e) => CallOutcome::Failed(e),
        Ok(b) => match as_integer(args[1]) {
            Err(e) => CallOutcome::Failed(e),
            Ok(k) => CallOutcome::Charged(
                costs.spec_cost(f, seq![bytes_size(b), spec_integer_ex_mem(k) as i64]),
                r(b, k),
            ),
        },
    }
}

/// `writeBits`: each index of the list, in turn, set to `v`; an index
/// outside the byte string fails.
pub open spec fn write_bits(b: Seq<u8>, ixs: Seq<ConstantV>, v: bool) -> Result<Seq<u8>, MachineError>
    decreases ixs.len(),
{
    if ixs.len() == 0 {
        Ok(b)
    } else {
        match ixs[0] {
            ConstantV::Integer(i) => if bit_in_range(b, i) {
                write_bits(set_bit(b, i, v), ixs.drop_first(), v)
            } else {
                Err(MachineError::Runtime(RuntimeError::WriteBitsOutOfBounds))
            },
            _ => Err(MachineError::Runtime(RuntimeError::TypeMismatch)),
        }
    }
}

/// `writeBits` on a byte string, a list of indices and a bit.
pub open spec fn write_bits_call(costs: BuiltinCosts, f: DefaultFunction, args: Seq<ValueV>) -> CallOutcome {
    match as_bytes(args[0]) {
        Err(e) => CallOutcome::Failed(e),
        Ok(b) => match as_list(args[1]) {
            Err(e) => CallOutcome::Failed(e),
            Ok((t, ixs)) => match as_bool(args[2]) {
                Err(e) => CallOutcome::Failed(e),
                Ok(v) => CallOutcome::Charged(
                    costs.spec_cost(f, seq![bytes_size(b), spec_value_ex_mem(args[1]), BOOL_EX_MEM]),
                    if t != Type::Integer {
                        Err(MachineError::Runtime(RuntimeError::TypeMismatch))
                    } else {
                        match write_bits(b, ixs, v) {
                            Ok(r) => Ok(bytes_value(r)),
                            Err(e) => Err(e),
                        }
                    },
                ),
            },
        },
    }
}

/// The greatest number of bytes that `replicateByte` and
/// `integerToByteString` produce.
pub open spec fn max_output_bytes() -> int {
    8192
}

/// `replicateByte` on a count and a byte value.
pub open spec fn replicate_call(costs: BuiltinCosts, f: DefaultFunction, args: Seq<ValueV>) -> CallOutcome {
    int_binary(
        costs,
        f,
        args,
        |n: int, w: int|
            if n < 0 {
                Err(MachineError::Runtime(RuntimeError::ReplicateByteNegativeSize))
            } else if n > max_output_bytes() {
                Err(MachineError::Runtime(RuntimeError::ReplicateByteSizeTooBig))
            } else if !(0 <= w <= 255) {
                Err(MachineError::Runtime(RuntimeError::OutsideByteBounds))
            } else {
                Ok(bytes_value(replicate_bytes(n as nat, w as u8)))
            },
    )
}

/// `integerToByteString` with byte order `big_endian`, a requested width
/// (0 for the shortest) and the number.
pub open spec fn integer_to_bytes(big_endian: bool, width: int, input: int) -> Result<Seq<u8>, RuntimeError> {
    if width < 0 {
        Err(RuntimeError::IntegerToByteStringNegativeSize)
    } else if width > max_output_bytes() {
        Err(RuntimeError::IntegerToByteStringSizeTooBig)
    } else if input < 0 {
        Err(RuntimeError::IntegerToByteStringNegativeInput)
    } else if width == 0 && integer_bytes(input as nat).len() > max_output_bytes() {
        Err(RuntimeError::IntegerToByteStringSizeTooBig)
    } else if width > 0 && integer_bytes(input as nat).len() > width {
        Err(RuntimeError::IntegerToByteStringSizeTooSmall)
    } else {
        let m = integer_bytes(input as nat);
        Ok(padded_bytes(big_endian, if width == 0 { m.len() } else { width as nat }, m))
    }
}

/// `integerToByteString` on a byte order, a width and a number.
pub open spec fn integer_to_bytes_call(costs: BuiltinCosts, f: DefaultFunction, args: Seq<ValueV>) -> CallOutcome {
    match as_bool(args[0]) {
        Err(e) => CallOutcome::Failed(e),
        Ok(be) => match as_integer(args[1]) {
            Err(e) => CallOutcome::Failed(e),
            Ok(w) => match as_integer(args[2]) {
                Err(e) => CallOutcome::Failed(e),
                Ok(n) => CallOutcome::Charged(
                    costs.spec_cost(f, seq![BOOL_EX_MEM, spec_integer_ex_mem(w) as i64, spec_integer_ex_mem(n) as i64]),
                    match integer_to_bytes(be, w, n) {
                        Ok(r) => Ok(bytes_value(r)),
                        Err(e) => Err(MachineError::Runtime(e)),
                    },
                ),
            },
        },
    }
}

/// `byteStringToInteger` on a byte order and a byte string.
pub open spec fn bytes_to_integer_call(costs: BuiltinCosts, f: DefaultFunction, args: Seq<ValueV>) -> CallOutcome {
    match as_bool(args[0]) {
        Err(e) => CallOutcome::Failed(e),
        Ok(be) => match as_bytes(args[1]) {
            Err(e) => CallOutcome::Failed(e),
            Ok(b) => CallOutcome::Charged(
                costs.spec_cost(f, seq![BOOL_EX_MEM, bytes_size(b)]),
                Ok(int_value(bytes_integer(be, b) as int)),
            ),
        },
    }
}

/// The entries of a list of data pairs, when every item is one.
pub open spec fn list_pairs(items: Seq<ConstantV>) -> Option<Seq<(DataV, DataV)>>
    decreases items.len(),
{
    if items.len() == 0 {
        Some(Seq::empty())
    } else {
        match (items.last(), list_pairs(items.drop_last())) {
            (ConstantV::ProtoPair(_, _, a, b), Some(ps)) => match (*a, *b) {
                (ConstantV::Data(x), ConstantV::Data(y)) => Some(ps.push((x, y))),
                _ => None,
            },
            _ => None,
        }
    }
}

/// The type of a pair of data items.
pub open spec fn data_pair_type() -> Type {
    Type::Pair(Box::new(Type::Data), Box::new(Type::Data))
}

/// Entries as pair constants of data items.
pub open spec fn pair_constants(es: Seq<(DataV, DataV)>) -> Seq<ConstantV> {
    Seq::new(
        es.len(),
        |k: int|
            ConstantV::ProtoPair(
                Type::Data,
                Type::Data,
                Box::new(ConstantV::Data(es[k].0)),
                Box::new(ConstantV::Data(es[k].1)),
            ),
    )
}

/// How many items `dropList` removes from a list of `len` items when
/// asked for `n`: none for a negative `n`, at most all.
pub open spec fn drop_count(n: int, len: nat) -> nat {
    if n <= 0 {
        0
    } else if n >= len {
        len
    } else {
        n as nat
    }
}

/// The list, array and map built-ins.
pub open spec fn collection_call(f: DefaultFunction, args: Seq<ValueV>) -> CallOutcome {
    match f {
        DefaultFunction::MapData => match as_list(args[0]) {
            Err(e) => CallOutcome::Failed(e),
            Ok((t, items)) => if t != data_pair_type() || list_pairs(items) is None {
                CallOutcome::Failed(MachineError::Runtime(RuntimeError::TypeMismatch))
            } else {
                CallOutcome::Uncharged(Ok(ValueV::Con(ConstantV::Data(DataV::AssocList(list_pairs(items)->0)))))
            },
        },
        DefaultFunction::UnMapData => match as_data(args[0]) {
            Err(e) => CallOutcome::Failed(e),
            Ok(DataV::AssocList(entries)) => CallOutcome::Uncharged(
                Ok(ValueV::Con(ConstantV::ProtoList(data_pair_type(), pair_constants(entries)))),
            ),
            Ok(_) => CallOutcome::Failed(MachineError::Runtime(RuntimeError::MalFormedData)),
        },
        DefaultFunction::DropList => match as_integer(args[0]) {
            Err(e) => CallOutcome::Failed(e),
            Ok(n) => match as_list(args[1]) {
                Err(e) => CallOutcome::Failed(e),
                Ok((t, items)) => CallOutcome::Uncharged(
                    Ok(ValueV::Con(ConstantV::ProtoList(t, items.subrange(drop_count(n, items.len()) as int, items.len() as int)))),
                ),
            },
        },
        DefaultFunction::LengthOfArray => match as_array(args[0]) {
            Err(e) => CallOutcome::Failed(e),
            Ok((_, items)) => CallOutcome::Uncharged(Ok(int_value(items.len() as int))),
        },
        DefaultFunction::ListToArray => match as_list(args[0]) {
            Err(e) => CallOutcome::Failed(e),
            Ok((t, items)) => CallOutcome::Uncharged(Ok(ValueV::Con(ConstantV::ProtoArray(t, items)))),
        },
        _ => match as_array(args[0]) {
            Err(e) => CallOutcome::Failed(e),
            Ok((_, items)) => match as_integer(args[1]) {
                Err(e) => CallOutcome::Failed(e),
                Ok(i) => if 0 <= i < items.len() {
                    CallOutcome::Uncharged(Ok(ValueV::Con(items[i])))
                } else {
                    CallOutcome::Failed(MachineError::Runtime(RuntimeError::IndexArrayOutOfBounds))
                },
            },
        },
    }
}

/// What calling the supported built-in `f` on `args` (as many as its
/// arity) does.
pub open spec fn spec_call(
    f: DefaultFunction,
    args: Seq<ValueV>,
    semantics: BuiltinSemantics,
    costs: BuiltinCosts,
) -> CallOutcome {
    match f {
        DefaultFunction::AddInteger => int_binary(costs, f, args, |a: int, b: int| Ok(int_value(a + b))),
        DefaultFunction::SubtractInteger => int_binary(costs, f, args, |a: int, b: int| Ok(int_value(a - b))),
        DefaultFunction::MultiplyInteger => int_binary(costs, f, args, |a: int, b: int| Ok(int_value(a * b))),
        DefaultFunction::DivideInteger => division(costs, f, args, |a: int, b: int| floor_div(a, b)),
        DefaultFunction::QuotientInteger => division(costs, f, args, |a: int, b: int| trunc_div(a, b)),
        DefaultFunction::RemainderInteger => division(costs, f, args, |a: int, b: int| trunc_rem(a, b)),
        DefaultFunction::ModInteger => division(costs, f, args, |a: int, b: int| floor_mod(a, b)),
        DefaultFunction::EqualsInteger => int_binary(costs, f, args, |a: int, b: int| Ok(bool_value(a == b))),
        DefaultFunction::LessThanInteger => int_binary(costs, f, args, |a: int, b: int| Ok(bool_value(a < b))),
        DefaultFunction::LessThanEqualsInteger => int_binary(costs, f, args, |a: int, b: int| Ok(bool_value(a <= b))),
        DefaultFunction::AppendByteString => bytes_binary(costs, f, args, |a: Seq<u8>, b: Seq<u8>| bytes_value(a + b)),
        DefaultFunction::EqualsByteString => bytes_binary(costs, f, args, |a: Seq<u8>, b: Seq<u8>| bool_value(a == b)),
        DefaultFunction::LessThanByteString => bytes_binary(costs, f, args, |a: Seq<u8>, b: Seq<u8>| bool_value(bytes_lt(a, b))),
        DefaultFunction::LessThanEqualsByteString => bytes_binary(costs, f, args, |a: Seq<u8>, b: Seq<u8>| bool_value(bytes_lt(a, b) || a == b)),
        DefaultFunction::ConsByteString => match as_integer(args[0]) {
            Err(e) => CallOutcome::Failed(e),
            Ok(a) => match as_bytes(args[1]) {
                Err(e) => CallOutcome::Failed(e),
                Ok(b) => CallOutcome::Charged(
                    costs.spec_cost(f, seq![spec_integer_ex_mem(a) as i64, bytes_size(b)]),
                    match semantics {
                        BuiltinSemantics::V1 => Ok(bytes_value(seq![floor_mod(a, 256) as u8] + b)),
                        BuiltinSemantics::V2 => if a > 255 || a < 0 {
                            Err(MachineError::Runtime(RuntimeError::ByteStringConsNotAByte))
                        } else {
                            Ok(bytes_value(seq![a as u8] + b))
                        },
                    },
                ),
            },
        },
        DefaultFunction::SliceByteString => match as_integer(args[0]) {
            Err(e) => CallOutcome::Failed(e),
            Ok(a) => match as_integer(args[1]) {
                Err(e) => CallOutcome::Failed(e),
                Ok(n) => match as_bytes(args[2]) {
                    Err(e) => CallOutcome::Failed(e),
                    Ok(b) => CallOutcome::Charged(
                        costs.spec_cost(
                            f,
                            seq![spec_integer_ex_mem(a) as i64, spec_integer_ex_mem(n) as i64, bytes_size(b)],
                        ),
                        Ok(bytes_value(slice_bytes(b, slice_count(a), slice_count(n)))),
                    ),
                },
            },
        },
        DefaultFunction::LengthOfByteString => bytes_unary(costs, f, args, |b: Seq<u8>| Ok(int_value(b.len() as int))),
        DefaultFunction::IndexByteString => match as_bytes(args[0]) {
            Err(e) => CallOutcome::Failed(e),
            Ok(b) => match as_integer(args[1]) {
                Err(e) => CallOutcome::Failed(e),
                Ok(i) => CallOutcome::Charged(
                    costs.spec_cost(f, seq![bytes_size(b), spec_integer_ex_mem(i) as i64]),
                    if 0 <= i < b.len() {
                        Ok(int_value(b[i] as int))
                    } else {
                        Err(MachineError::Runtime(RuntimeError::ByteStringOutOfBounds))
                    },
                ),
            },
        },
        DefaultFunction::Sha2_256 => bytes_unary(costs, f, args, |b: Seq<u8>| Ok(bytes_value(sha2_256_of(b)))),
        DefaultFunction::Sha3_256 => bytes_unary(costs, f, args, |b: Seq<u8>| Ok(bytes_value(sha3_256_of(b)))),
        DefaultFunction::Blake2b_256 => bytes_unary(costs, f, args, |b: Seq<u8>| Ok(bytes_value(blake2b_256_of(b)))),
        DefaultFunction::Keccak_256 => bytes_unary(costs, f, args, |b: Seq<u8>| Ok(bytes_value(keccak_256_of(b)))),
        DefaultFunction::Blake2b_224 => bytes_unary(costs, f, args, |b: Seq<u8>| Ok(bytes_value(blake2b_224_of(b)))),
        DefaultFunction::VerifyEd25519Signature => match as_bytes(args[0]) {
            Err(e) => CallOutcome::Failed(e),
            Ok(k) => match as_bytes(args[1]) {
                Err(e) => CallOutcome::Failed(e),
                Ok(m) => match as_bytes(args[2]) {
                    Err(e) => CallOutcome::Failed(e),
                    Ok(sig) => CallOutcome::Charged(
                        costs.spec_cost(f, seq![bytes_size(k), bytes_size(m), bytes_size(sig)]),
                        if k.len() != 32 {
                            Err(MachineError::Runtime(RuntimeError::UnexpectedEd25519PublicKeyLength))
                        } else if sig.len() != 64 {
                            Err(MachineError::Runtime(RuntimeError::UnexpectedEd25519SignatureLength))
                        } else {
                            Ok(bool_value(ed25519_valid(m, k, sig)))
                        },
                    ),
                },
            },
        },
        DefaultFunction::EqualsString => match as_string(args[0]) {
            Err(e) => CallOutcome::Failed(e),
            Ok(a) => match as_string(args[1]) {
                Err(e) => CallOutcome::Failed(e),
                Ok(b) => CallOutcome::Charged(
                    costs.spec_cost(f, seq![crate::cost_model::saturating::clamp_i64(a.len() as int), crate::cost_model::saturating::clamp_i64(b.len() as int)]),
                    Ok(bool_value(a == b)),
                ),
            },
        },
        DefaultFunction::EncodeUtf8 => match as_string(args[0]) {
            Err(e) => CallOutcome::Failed(e),
            Ok(a) => CallOutcome::Charged(
                costs.spec_cost(f, seq![crate::cost_model::saturating::clamp_i64(a.len() as int)]),
                Ok(bytes_value(encode_utf8(a))),
            ),
        },
        DefaultFunction::DecodeUtf8 => bytes_unary(
            costs,
            f,
            args,
            |b: Seq<u8>|
                if valid_utf8(b) {
                    Ok(ValueV::Con(ConstantV::String(decode_utf8(b))))
                } else {
                    Err(MachineError::Runtime(RuntimeError::DecodeUtf8))
                },
        ),
        DefaultFunction::VerifyEcdsaSecp256k1Signature => bytes_ternary(
            costs,
            f,
            args,
            |k: Seq<u8>, m: Seq<u8>, s: Seq<u8>| secp256k1_result(ecdsa_secp256k1_outcome(k, m, s)),
        ),
        DefaultFunction::VerifySchnorrSecp256k1Signature => bytes_ternary(
            costs,
            f,
            args,
            |k: Seq<u8>, m: Seq<u8>, s: Seq<u8>| secp256k1_result(schnorr_secp256k1_outcome(k, m, s)),
        ),
        DefaultFunction::AppendString => match as_string(args[0]) {
            Err(e) => CallOutcome::Failed(e),
            Ok(a) => match as_string(args[1]) {
                Err(e) => CallOutcome::Failed(e),
                Ok(b) => CallOutcome::Charged(
                    costs.spec_cost(f, seq![crate::cost_model::saturating::clamp_i64(a.len() as int), crate::cost_model::saturating::clamp_i64(b.len() as int)]),
                    Ok(ValueV::Con(ConstantV::String(a + b))),
                ),
            },
        },
        DefaultFunction::Trace => match as_string(args[0]) {
            Err(e) => CallOutcome::Failed(e),
            Ok(a) => CallOutcome::Charged(
                costs.spec_cost(f, seq![crate::cost_model::saturating::clamp_i64(a.len() as int), spec_value_ex_mem(args[1])]),
                Ok(args[1]),
            ),
        },
        DefaultFunction::IfThenElse => match as_bool(args[0]) {
            Err(e) => CallOutcome::Failed(e),
            Ok(b) => CallOutcome::Uncharged(Ok(if b { args[1] } else { args[2] })),
        },
        DefaultFunction::ChooseUnit => match as_unit(args[0]) {
            Err(e) => CallOutcome::Failed(e),
            Ok(_) => CallOutcome::Charged(
                costs.spec_cost(f, seq![UNIT_EX_MEM, spec_value_ex_mem(args[1])]),
                Ok(args[1]),
            ),
        },
        DefaultFunction::FstPair => match as_pair(args[0]) {
            Err(e) => CallOutcome::Failed(e),
            Ok((a, _)) => CallOutcome::Charged(costs.spec_cost(f, seq![i64::MAX]), Ok(ValueV::Con(a))),
        },
        DefaultFunction::SndPair => match as_pair(args[0]) {
            Err(e) => CallOutcome::Failed(e),
            Ok((_, b)) => CallOutcome::Charged(costs.spec_cost(f, seq![i64::MAX]), Ok(ValueV::Con(b))),
        },
        DefaultFunction::ChooseList => match as_list(args[0]) {
            Err(e) => CallOutcome::Failed(e),
            Ok((_, items)) => CallOutcome::Uncharged(Ok(if items.len() == 0 { args[1] } else { args[2] })),
        },
        DefaultFunction::MkCons => match as_constant(args[0]) {
            Err(e) => CallOutcome::Failed(e),
            Ok(item) => match as_list(args[1]) {
                Err(e) => CallOutcome::Failed(e),
                Ok((t, items)) => if type_of(item) != t {
                    CallOutcome::Failed(MachineError::Runtime(RuntimeError::MkConsTypeMismatch))
                } else {
                    CallOutcome::Uncharged(Ok(ValueV::Con(ConstantV::ProtoList(t, seq![item] + items))))
                },
            },
        },
        DefaultFunction::HeadList => match as_list(args[0]) {
            Err(e) => CallOutcome::Failed(e),
            Ok((_, items)) => if items.len() == 0 {
                CallOutcome::Failed(MachineError::Runtime(RuntimeError::EmptyList))
            } else {
                CallOutcome::Uncharged(Ok(ValueV::Con(items[0])))
            },
        },
        DefaultFunction::TailList => match as_list(args[0]) {
            Err(e) => CallOutcome::Failed(e),
            Ok((t, items)) => if items.len() == 0 {
                CallOutcome::Failed(MachineError::Runtime(RuntimeError::EmptyList))
            } else {
                CallOutcome::Uncharged(
                    Ok(ValueV::Con(ConstantV::ProtoList(t, items.subrange(1, items.len() as int)))),
                )
            },
        },
        DefaultFunction::NullList => match as_list(args[0]) {
            Err(e) => CallOutcome::Failed(e),
            Ok((_, items)) => CallOutcome::Uncharged(Ok(bool_value(items.len() == 0))),
        },
        DefaultFunction::ChooseData => match as_data(args[0]) {
            Err(e) => CallOutcome::Failed(e),
            Ok(d) => CallOutcome::Uncharged(
                Ok(
                    match d {
                        DataV::Constr(..) => args[1],
                        DataV::AssocList(_) => args[2],
                        DataV::List(_) => args[3],
                        DataV::Integer(_) => args[4],
                        DataV::ByteString(_) => args[5],
                    },
                ),
            ),
        },
        DefaultFunction::ConstrData => match as_integer(args[0]) {
            Err(e) => CallOutcome::Failed(e),
            Ok(tag) => match as_list(args[1]) {
                Err(e) => CallOutcome::Failed(e),
                Ok((t, items)) => if t != Type::Data || !(0 <= tag <= u64::MAX) || list_datas(items) is None {
                    CallOutcome::Failed(MachineError::Runtime(RuntimeError::TypeMismatch))
                } else {
                    CallOutcome::Uncharged(
                        Ok(ValueV::Con(ConstantV::Data(DataV::Constr(tag as u64, list_datas(items)->0)))),
                    )
                },
            },
        },
        DefaultFunction::ListData => match as_list(args[0]) {
            Err(e) => CallOutcome::Failed(e),
            Ok((t, items)) => if t != Type::Data || list_datas(items) is None {
                CallOutcome::Failed(MachineError::Runtime(RuntimeError::TypeMismatch))
            } else {
                CallOutcome::Uncharged(Ok(ValueV::Con(ConstantV::Data(DataV::List(list_datas(items)->0)))))
            },
        },
        DefaultFunction::IData => match as_integer(args[0]) {
            Err(e) => CallOutcome::Failed(e),
            Ok(i) => CallOutcome::Uncharged(Ok(ValueV::Con(ConstantV::Data(DataV::Integer(i))))),
        },
        DefaultFunction::BData => match as_bytes(args[0]) {
            Err(e) => CallOutcome::Failed(e),
            Ok(b) => CallOutcome::Uncharged(Ok(ValueV::Con(ConstantV::Data(DataV::ByteString(b))))),
        },
        DefaultFunction::UnConstrData => match as_data(args[0]) {
            Err(e) => CallOutcome::Failed(e),
            Ok(DataV::Constr(tag, fields)) => CallOutcome::Uncharged(
                Ok(
                    ValueV::Con(
                        ConstantV::ProtoPair(
                            Type::Integer,
                            Type::List(Box::new(Type::Data)),
                            Box::new(ConstantV::Integer(tag as int)),
                            Box::new(ConstantV::ProtoList(Type::Data, data_constants(fields))),
                        ),
                    ),
                ),
            ),
            Ok(_) => CallOutcome::Failed(MachineError::Runtime(RuntimeError::MalFormedData)),
        },
        DefaultFunction::UnListData => match as_data(args[0]) {
            Err(e) => CallOutcome::Failed(e),
            Ok(DataV::List(items)) => CallOutcome::Uncharged(
                Ok(ValueV::Con(ConstantV::ProtoList(Type::Data, data_constants(items)))),
            ),
            Ok(_) => CallOutcome::Failed(MachineError::Runtime(RuntimeError::MalFormedData)),
        },
        DefaultFunction::UnIData => match as_data(args[0]) {
            Err(e) => CallOutcome::Failed(e),
            Ok(DataV::Integer(i)) => CallOutcome::Uncharged(Ok(int_value(i))),
            Ok(_) => CallOutcome::Failed(MachineError::Runtime(RuntimeError::MalFormedData)),
        },
        DefaultFunction::UnBData => match as_data(args[0]) {
            Err(e) => CallOutcome::Failed(e),
            Ok(DataV::ByteString(b)) => CallOutcome::Uncharged(Ok(bytes_value(b))),
            Ok(_) => CallOutcome::Failed(MachineError::Runtime(RuntimeError::MalFormedData)),
        },
        DefaultFunction::EqualsData => match as_data(args[0]) {
            Err(e) => CallOutcome::Failed(e),
            Ok(a) => match as_data(args[1]) {
                Err(e) => CallOutcome::Failed(e),
                Ok(b) => CallOutcome::Uncharged(Ok(bool_value(a == b))),
            },
        },
        DefaultFunction::MkPairData => match as_data(args[0]) {
            Err(e) => CallOutcome::Failed(e),
            Ok(a) => match as_data(args[1]) {
                Err(e) => CallOutcome::Failed(e),
                Ok(b) => CallOutcome::Uncharged(
                    Ok(
                        ValueV::Con(
                            ConstantV::ProtoPair(
                                Type::Data,
                                Type::Data,
                                Box::new(ConstantV::Data(a)),
                                Box::new(ConstantV::Data(b)),
                            ),
                        ),
                    ),
                ),
            },
        },
        DefaultFunction::MkNilData => match as_unit(args[0]) {
            Err(e) => CallOutcome::Failed(e),
            Ok(_) => CallOutcome::Uncharged(Ok(ValueV::Con(ConstantV::ProtoList(Type::Data, Seq::empty())))),
        },
        DefaultFunction::MkNilPairData => match as_unit(args[0]) {
            Err(e) => CallOutcome::Failed(e),
            Ok(_) => CallOutcome::Uncharged(
                Ok(
                    ValueV::Con(
                        ConstantV::ProtoList(
                            Type::Pair(Box::new(Type::Data), Box::new(Type::Data)),
                            Seq::empty(),
                        ),
                    ),
                ),
            ),
        },
        DefaultFunction::AndByteString => bitwise(costs, f, args),
        DefaultFunction::OrByteString => bitwise(costs, f, args),
        DefaultFunction::XorByteString => bitwise(costs, f, args),
        DefaultFunction::ExpModInteger => exp_mod_call(costs, f, args),
        DefaultFunction::ComplementByteString => bytes_unary(costs, f, args, |b: Seq<u8>| Ok(bytes_value(complement_bytes(b)))),
        DefaultFunction::CountSetBits => bytes_unary(costs, f, args, |b: Seq<u8>| Ok(int_value(count_bits(b)))),
        DefaultFunction::FindFirstSetBit => bytes_unary(costs, f, args, |b: Seq<u8>| Ok(int_value(first_set_bit(b)))),
        DefaultFunction::Ripemd_160 => bytes_unary(costs, f, args, |b: Seq<u8>| Ok(bytes_value(ripemd_160_of(b)))),
        DefaultFunction::ReadBit => bytes_int(
            costs,
            f,
            args,
            |b: Seq<u8>, i: int|
                if bit_in_range(b, i) {
                    Ok(bool_value(bit_at(b, i)))
                } else {
                    Err(MachineError::Runtime(RuntimeError::ReadBitOutOfBounds))
                },
        ),
        DefaultFunction::ShiftByteString => bytes_int(costs, f, args, |b: Seq<u8>, k: int| Ok(bytes_value(shift_bytes(b, k)))),
        DefaultFunction::RotateByteString => bytes_int(costs, f, args, |b: Seq<u8>, k: int| Ok(bytes_value(rotate_bytes(b, k)))),
        DefaultFunction::WriteBits => write_bits_call(costs, f, args),
        DefaultFunction::ReplicateByte => replicate_call(costs, f, args),
        DefaultFunction::IntegerToByteString => integer_to_bytes_call(costs, f, args),
        DefaultFunction::ByteStringToInteger => bytes_to_integer_call(costs, f, args),
        DefaultFunction::MapData => collection_call(f, args),
        DefaultFunction::UnMapData => collection_call(f, args),
        DefaultFunction::DropList => collection_call(f, args),
        DefaultFunction::LengthOfArray => collection_call(f, args),
        DefaultFunction::ListToArray => collection_call(f, args),
        DefaultFunction::IndexArray => collection_call(f, args),
        _ => CallOutcome::Failed(MachineError::NonFunctionApplication),
    }
}

/// The charge of a call of one of a group of built-ins is never negative
/// in CPU where the cost model's charges are not.
#[verifier::spinoff_prover]
#[verifier::rlimit(100)]
proof fn lemma_call_charge_nonnegative_0(
    f: DefaultFunction,
    args: Seq<ValueV>,
    semantics: BuiltinSemantics,
    costs: BuiltinCosts,
)
    requires
        f == DefaultFunction::AddInteger
        || f == DefaultFunction::SubtractInteger
        || f == DefaultFunction::MultiplyInteger
        || f == DefaultFunction::DivideInteger
        || f == DefaultFunction::QuotientInteger
        || f == DefaultFunction::RemainderInteger
        || f == DefaultFunction::ModInteger
        || f == DefaultFunction::EqualsInteger,
        forall|g: DefaultFunction, s: Seq<i64>| #[trigger] costs.spec_cost(g, s).cpu >= 0,
    ensures
        spec_call(f, args, semantics, costs) matches CallOutcome::Charged(c, _) ==> c.cpu >= 0,
{
}

/// The charge of a call of one of a group of built-ins is never negative
/// in CPU where the cost model's charges are not.
#[verifier::spinoff_prover]
#[verifier::rlimit(100)]
proof fn lemma_call_charge_nonnegative_1(
    f: DefaultFunction,
    args: Seq<ValueV>,
    semantics: BuiltinSemantics,
    costs: BuiltinCosts,
)
    requires
        f == DefaultFunction::LessThanInteger
        || f == DefaultFunction::LessThanEqualsInteger
        || f == DefaultFunction::AppendByteString
        || f == DefaultFunction::EqualsByteString
        || f == DefaultFunction::LessThanByteString
        || f == DefaultFunction::LessThanEqualsByteString
        || f == DefaultFunction::ConsByteString
        || f == DefaultFunction::SliceByteString,
        forall|g: DefaultFunction, s: Seq<i64>| #[trigger] costs.spec_cost(g, s).cpu >= 0,
    ensures
        spec_call(f, args, semantics, costs) matches CallOutcome::Charged(c, _) ==> c.cpu >= 0,
{
}

/// The charge of a call of one of a group of built-ins is never negative
/// in CPU where the cost model's charges are not.
#[verifier::spinoff_prover]
#[verifier::rlimit(100)]
proof fn lemma_call_charge_nonnegative_2(
    f: DefaultFunction,
    args: Seq<ValueV>,
    semantics: BuiltinSemantics,
    costs: BuiltinCosts,
)
    requires
        f == DefaultFunction::LengthOfByteString
        || f == DefaultFunction::IndexByteString
        || f == DefaultFunction::Sha2_256
        || f == DefaultFunction::Sha3_256
        || f == DefaultFunction::Blake2b_256
        || f == DefaultFunction::Keccak_256
        || f == DefaultFunction::Blake2b_224
        || f == DefaultFunction::VerifyEd25519Signature,
        forall|g: DefaultFunction, s: Seq<i64>| #[trigger] costs.spec_cost(g, s).cpu >= 0,
    ensures
        spec_call(f, args, semantics, costs) matches CallOutcome::Charged(c, _) ==> c.cpu >= 0,
{
}

/// The charge of a call of one of a group of built-ins is never negative
/// in CPU where the cost model's charges are not.
#[verifier::spinoff_prover]
#[verifier::rlimit(100)]
proof fn lemma_call_charge_nonnegative_3(
    f: DefaultFunction,
    args: Seq<ValueV>,
    semantics: BuiltinSemantics,
    costs: BuiltinCosts,
)
    requires
        f == DefaultFunction::EqualsString
        || f == DefaultFunction::EncodeUtf8
        || f == DefaultFunction::DecodeUtf8
        || f == DefaultFunction::VerifyEcdsaSecp256k1Signature
        || f == DefaultFunction::VerifySchnorrSecp256k1Signature
        || f == DefaultFunction::AppendString
        || f == DefaultFunction::Trace
        || f == DefaultFunction::IfThenElse,
        forall|g: DefaultFunction, s: Seq<i64>| #[trigger] costs.spec_cost(g, s).cpu >= 0,
    ensures
        spec_call(f, args, semantics, costs) matches CallOutcome::Charged(c, _) ==> c.cpu >= 0,
{
}

/// The charge of a call of one of a group of built-ins is never negative
/// in CPU where the cost model's charges are not.
#[verifier::spinoff_prover]
#[verifier::rlimit(100)]
proof fn lemma_call_charge_nonnegative_4(
    f: DefaultFunction,
    args: Seq<ValueV>,
    semantics: BuiltinSemantics,
    costs: BuiltinCosts,
)
    requires
        f == DefaultFunction::ChooseUnit
        || f == DefaultFunction::FstPair
        || f == DefaultFunction::SndPair
        || f == DefaultFunction::ChooseList
        || f == DefaultFunction::MkCons
        || f == DefaultFunction::HeadList
        || f == DefaultFunction::TailList
        || f == DefaultFunction::NullList,
        forall|g: DefaultFunction, s: Seq<i64>| #[trigger] costs.spec_cost(g, s).cpu >= 0,
    ensures
        spec_call(f, args, semantics, costs) matches CallOutcome::Charged(c, _) ==> c.cpu >= 0,
{
}

/// The charge of a call of one of a group of built-ins is never negative
/// in CPU where the cost model's charges are not.
#[verifier::spinoff_prover]
#[verifier::rlimit(100)]
proof fn lemma_call_charge_nonnegative_5(
    f: DefaultFunction,
    args: Seq<ValueV>,
    semantics: BuiltinSemantics,
    costs: BuiltinCosts,
)
    requires
        f == DefaultFunction::ChooseData
        || f == DefaultFunction::ConstrData
        || f == DefaultFunction::ListData
        || f == DefaultFunction::IData
        || f == DefaultFunction::BData
        || f == DefaultFunction::UnConstrData
        || f == DefaultFunction::UnListData
        || f == DefaultFunction::UnIData,
        forall|g: DefaultFunction, s: Seq<i64>| #[trigger] costs.spec_cost(g, s).cpu >= 0,
    ensures
        spec_call(f, args, semantics, costs) matches CallOutcome::Charged(c, _) ==> c.cpu >= 0,
{
}

/// The charge of a call of one of a group of built-ins is never negative
/// in CPU where the cost model's charges are not.
#[verifier::spinoff_prover]
#[verifier::rlimit(100)]
proof fn lemma_call_charge_nonnegative_6(
    f: DefaultFunction,
    args: Seq<ValueV>,
    semantics: BuiltinSemantics,
    costs: BuiltinCosts,
)
    requires
        f == DefaultFunction::UnBData
        || f == DefaultFunction::EqualsData
        || f == DefaultFunction::MkPairData
        || f == DefaultFunction::MkNilData
        || f == DefaultFunction::MkNilPairData
        || f == DefaultFunction::AndByteString
        || f == DefaultFunction::OrByteString
        || f == DefaultFunction::XorByteString,
        forall|g: DefaultFunction, s: Seq<i64>| #[trigger] costs.spec_cost(g, s).cpu >= 0,
    ensures
        spec_call(f, args, semantics, costs) matches CallOutcome::Charged(c, _) ==> c.cpu >= 0,
{
}

/// The charge of a call of one of a group of built-ins is never negative
/// in CPU where the cost model's charges are not.
#[verifier::spinoff_prover]
#[verifier::rlimit(100)]
proof fn lemma_call_charge_nonnegative_7(
    f: DefaultFunction,
    args: Seq<ValueV>,
    semantics: BuiltinSemantics,
    costs: BuiltinCosts,
)
    requires
        f == DefaultFunction::ExpModInteger
        || f == DefaultFunction::ComplementByteString
        || f == DefaultFunction::CountSetBits
        || f == DefaultFunction::FindFirstSetBit
        || f == DefaultFunction::Ripemd_160
        || f == DefaultFunction::ReadBit
        || f == DefaultFunction::ShiftByteString
        || f == DefaultFunction::RotateByteString,
        forall|g: DefaultFunction, s: Seq<i64>| #[trigger] costs.spec_cost(g, s).cpu >= 0,
    ensures
        spec_call(f, args, semantics, costs) matches CallOutcome::Charged(c, _) ==> c.cpu >= 0,
{
}

/// The charge of a call of one of a group of built-ins is never negative
/// in CPU where the cost model's charges are not.
#[verifier::spinoff_prover]
#[verifier::rlimit(100)]
proof fn lemma_call_charge_nonnegative_8(
    f: DefaultFunction,
    args: Seq<ValueV>,
    semantics: BuiltinSemantics,
    costs: BuiltinCosts,
)
    requires
        f == DefaultFunction::WriteBits,
        forall|g: DefaultFunction, s: Seq<i64>| #[trigger] costs.spec_cost(g, s).cpu >= 0,
    ensures
        spec_call(f, args, semantics, costs) matches CallOutcome::Charged(c, _) ==> c.cpu >= 0,
{
}

/// The charge of a call of one of a group of built-ins is never negative
/// in CPU where the cost model's charges are not.
#[verifier::spinoff_prover]
#[verifier::rlimit(100)]
proof fn lemma_call_charge_nonnegative_11(
    f: DefaultFunction,
    args: Seq<ValueV>,
    semantics: BuiltinSemantics,
    costs: BuiltinCosts,
)
    requires
        f == DefaultFunction::ReplicateByte,
        forall|g: DefaultFunction, s: Seq<i64>| #[trigger] costs.spec_cost(g, s).cpu >= 0,
    ensures
        spec_call(f, args, semantics, costs) matches CallOutcome::Charged(c, _) ==> c.cpu >= 0,
{
}

/// The charge of a call of one of a group of built-ins is never negative
/// in CPU where the cost model's charges are not.
#[verifier::spinoff_prover]
#[verifier::rlimit(100)]
proof fn lemma_call_charge_nonnegative_12(
    f: DefaultFunction,
    args: Seq<ValueV>,
    semantics: BuiltinSemantics,
    costs: BuiltinCosts,
)
    requires
        f == DefaultFunction::IntegerToByteString,
        forall|g: DefaultFunction, s: Seq<i64>| #[trigger] costs.spec_cost(g, s).cpu >= 0,
    ensures
        spec_call(f, args, semantics, costs) matches CallOutcome::Charged(c, _) ==> c.cpu >= 0,
{
}

/// The charge of a call of one of a group of built-ins is never negative
/// in CPU where the cost model's charges are not.
#[verifier::spinoff_prover]
#[verifier::rlimit(100)]
proof fn lemma_call_charge_nonnegative_13(
    f: DefaultFunction,
    args: Seq<ValueV>,
    semantics: BuiltinSemantics,
    costs: BuiltinCosts,
)
    requires
        f == DefaultFunction::ByteStringToInteger,
        forall|g: DefaultFunction, s: Seq<i64>| #[trigger] costs.spec_cost(g, s).cpu >= 0,
    ensures
        spec_call(f, args, semantics, costs) matches CallOutcome::Charged(c, _) ==> c.cpu >= 0,
{
}

/// The charge of a call of one of a group of built-ins is never negative
/// in CPU where the cost model's charges are not.
#[verifier::spinoff_prover]
#[verifier::rlimit(100)]
proof fn lemma_call_charge_nonnegative_10(
    f: DefaultFunction,
    args: Seq<ValueV>,
    semantics: BuiltinSemantics,
    costs: BuiltinCosts,
)
    requires
        f == DefaultFunction::MapData
        || f == DefaultFunction::UnMapData
        || f == DefaultFunction::DropList
        || f == DefaultFunction::LengthOfArray,
        forall|g: DefaultFunction, s: Seq<i64>| #[trigger] costs.spec_cost(g, s).cpu >= 0,
    ensures
        spec_call(f, args, semantics, costs) matches CallOutcome::Charged(c, _) ==> c.cpu >= 0,
{
}

/// The charge of a call of one of a group of built-ins is never negative
/// in CPU where the cost model's charges are not.
#[verifier::spinoff_prover]
#[verifier::rlimit(100)]
proof fn lemma_call_charge_nonnegative_9(
    f: DefaultFunction,
    args: Seq<ValueV>,
    semantics: BuiltinSemantics,
    costs: BuiltinCosts,
)
    requires
        f == DefaultFunction::ListToArray
        || f == DefaultFunction::IndexArray,
        forall|g: DefaultFunction, s: Seq<i64>| #[trigger] costs.spec_cost(g, s).cpu >= 0,
    ensures
        spec_call(f, args, semantics, costs) matches CallOutcome::Charged(c, _) ==> c.cpu >= 0,
{
}

/// What a built-in call charges is a charge of the cost model, so it is
/// never negative in CPU where the cost model's charges are not.
#[verifier::spinoff_prover]
#[verifier::rlimit(100)]
pub proof fn lemma_call_charge_nonnegative(
    f: DefaultFunction,
    args: Seq<ValueV>,
    semantics: BuiltinSemantics,
    costs: BuiltinCosts,
)
    requires
        forall|g: DefaultFunction, s: Seq<i64>| #[trigger] costs.spec_cost(g, s).cpu >= 0,
    ensures
        spec_call(f, args, semantics, costs) matches CallOutcome::Charged(c, _) ==> c.cpu >= 0,
{
    if f == DefaultFunction::AddInteger
        || f == DefaultFunction::SubtractInteger
        || f == DefaultFunction::MultiplyInteger
        || f == DefaultFunction::DivideInteger
        || f == DefaultFunction::QuotientInteger
        || f == DefaultFunction::RemainderInteger
        || f == DefaultFunction::ModInteger
        || f == DefaultFunction::EqualsInteger {
        lemma_call_charge_nonnegative_0(f, args, semantics, costs);
    } else if f == DefaultFunction::LessThanInteger
        || f == DefaultFunction::LessThanEqualsInteger
        || f == DefaultFunction::AppendByteString
        || f == DefaultFunction::EqualsByteString
        || f == DefaultFunction::LessThanByteString
        || f == DefaultFunction::LessThanEqualsByteString
        || f == DefaultFunction::ConsByteString
        || f == DefaultFunction::SliceByteString {
        lemma_call_charge_nonnegative_1(f, args, semantics, costs);
    } else if f == DefaultFunction::LengthOfByteString
        || f == DefaultFunction::IndexByteString
        || f == DefaultFunction::Sha2_256
        || f == DefaultFunction::Sha3_256
        || f == DefaultFunction::Blake2b_256
        || f == DefaultFunction::Keccak_256
        || f == DefaultFunction::Blake2b_224
        || f == DefaultFunction::VerifyEd25519Signature {
        lemma_call_charge_nonnegative_2(f, args, semantics, costs);
    } else if f == DefaultFunction::EqualsString
        || f == DefaultFunction::EncodeUtf8
        || f == DefaultFunction::DecodeUtf8
        || f == DefaultFunction::VerifyEcdsaSecp256k1Signature
        || f == DefaultFunction::VerifySchnorrSecp256k1Signature
        || f == DefaultFunction::AppendString
        || f == DefaultFunction::Trace
        || f == DefaultFunction::IfThenElse {
        lemma_call_charge_nonnegative_3(f, args, semantics, costs);
    } else if f == DefaultFunction::ChooseUnit
        || f == DefaultFunction::FstPair
        || f == DefaultFunction::SndPair
        || f == DefaultFunction::ChooseList
        || f == DefaultFunction::MkCons
        || f == DefaultFunction::HeadList
        || f == DefaultFunction::TailList
        || f == DefaultFunction::NullList {
        lemma_call_charge_nonnegative_4(f, args, semantics, costs);
    } else if f == DefaultFunction::ChooseData
        || f == DefaultFunction::ConstrData
        || f == DefaultFunction::ListData
        || f == DefaultFunction::IData
        || f == DefaultFunction::BData
        || f == DefaultFunction::UnConstrData
        || f == DefaultFunction::UnListData
        || f == DefaultFunction::UnIData {
        lemma_call_charge_nonnegative_5(f, args, semantics, costs);
    } else if f == DefaultFunction::UnBData
        || f == DefaultFunction::EqualsData
        || f == DefaultFunction::MkPairData
        || f == DefaultFunction::MkNilData
        || f == DefaultFunction::MkNilPairData
        || f == DefaultFunction::AndByteString
        || f == DefaultFunction::OrByteString
        || f == DefaultFunction::XorByteString {
        lemma_call_charge_nonnegative_6(f, args, semantics, costs);
    } else if f == DefaultFunction::ExpModInteger
        || f == DefaultFunction::ComplementByteString
        || f == DefaultFunction::CountSetBits
        || f == DefaultFunction::FindFirstSetBit
        || f == DefaultFunction::Ripemd_160
        || f == DefaultFunction::ReadBit
        || f == DefaultFunction::ShiftByteString
        || f == DefaultFunction::RotateByteString {
        lemma_call_charge_nonnegative_7(f, args, semantics, costs);
    } else if f == DefaultFunction::WriteBits {
        lemma_call_charge_nonnegative_8(f, args, semantics, costs);
    } else if f == DefaultFunction::ReplicateByte {
        lemma_call_charge_nonnegative_11(f, args, semantics, costs);
    } else if f == DefaultFunction::IntegerToByteString {
        lemma_call_charge_nonnegative_12(f, args, semantics, costs);
    } else if f == DefaultFunction::ByteStringToInteger {
        lemma_call_charge_nonnegative_13(f, args, semantics, costs);
    } else if f == DefaultFunction::MapData
        || f == DefaultFunction::UnMapData
        || f == DefaultFunction::DropList
        || f == DefaultFunction::LengthOfArray {
        lemma_call_charge_nonnegative_10(f, args, semantics, costs);
    } else if f == DefaultFunction::ListToArray
        || f == DefaultFunction::IndexArray {
        lemma_call_charge_nonnegative_9(f, args, semantics, costs);
    }
}

} // verus!
