//! Calls of the bit-level byte-string built-ins, `ripemd_160`, the map
//! conversions of data, `dropList` and the array built-ins.

use std::rc::Rc;

use vstd::prelude::*;

use crate::builtin::{spec_arity, BuiltinSemantics, DefaultFunction};
use crate::constant::{
    constants_view, copy_constant, copy_data, copy_type, data_view, lemma_constants_view_index,
    lemma_constants_view_push, lemma_pairs_view_index, lemma_pairs_view_push, pairs_view,
    same_type, Constant, ConstantV, DataV, PlutusData, Type,
};
use crate::cost_model::builtin_costs::BuiltinCosts;
use crate::cost_model::value::{byte_string_ex_mem, integer_ex_mem, spec_integer_ex_mem, BOOL_EX_MEM};
use crate::integer::Integer;

use super::bitwise::{
    assign_bit, bit_position, byte_bit, complement, count_set_bits, find_first_set_bit,
    integer_of_bytes, pad_bytes, replicate, rotate, shift,
};
use super::error::{MachineError, RuntimeError};
use super::runtime::{
    outcome_view, unwrap_bool, unwrap_byte_string, unwrap_data, unwrap_integer, unwrap_list,
    value_ex_mem, Outcome,
};
use super::semantics::{
    as_array, bytes_size, list_pairs, pair_constants, spec_call, write_bits,
};
use super::value::{lemma_values_view_index, values_view, Value, ValueV};

verus! {

/// The type and items of an array value.
pub fn unwrap_array<'b, 'a>(v: &'b Value<'a>) -> (r: Result<(&'b Type, &'b Vec<Constant>), MachineError>)
    ensures
        match as_array(v@) {
            Ok((t, items)) => r matches Ok((x, y)) && *x == t && constants_view(y@) == items,
            Err(e) => r == Err::<(&Type, &Vec<Constant>), MachineError>(e),
        },
{
    match v {
        Value::Con(c) => match &**c {
            Constant::ProtoArray(t, items) => Ok((t, items)),
            _ => Err(MachineError::Runtime(RuntimeError::ExpectedArray)),
        },
        _ => Err(MachineError::NotAConstant),
    }
}

/// Copies of the items from `start` on.
fn copy_constants_from(items: &Vec<Constant>, start: usize) -> (r: Vec<Constant>)
    requires
        start <= items@.len(),
    ensures
        constants_view(r@) == constants_view(items@).subrange(start as int, items@.len() as int),
{
    proof {
        lemma_constants_view_index(items@);
    }
    let mut out: Vec<Constant> = Vec::new();
    let mut k = start;
    proof {
        assert(constants_view(out@) =~= constants_view(items@).subrange(start as int, start as int));
    }
    while k < items.len()
        invariant
            start <= k <= items@.len(),
            constants_view(items@).len() == items@.len(),
            forall|j: int| 0 <= j < items@.len() ==> #[trigger] constants_view(items@)[j] == items@[j]@,
            constants_view(out@) == constants_view(items@).subrange(start as int, k as int),
        decreases items@.len() - k,
    {
        let c = copy_constant(&items[k]);
        proof {
            lemma_constants_view_push(out@, c);
            assert(constants_view(items@).subrange(start as int, k + 1) =~= constants_view(items@).subrange(
                start as int,
                k as int,
            ).push(constants_view(items@)[k as int]));
        }
        out.push(c);
        k += 1;
    }
    out
}

/// Calls `complementByteString`, `countSetBits`, `findFirstSetBit` or
/// `ripemd_160`.
pub fn call_bytes_unary<'a>(
    fun: DefaultFunction,
    args: &Vec<Rc<Value<'a>>>,
    semantics: BuiltinSemantics,
    costs: &BuiltinCosts,
) -> (r: Outcome<'a>)
    requires
        fun == DefaultFunction::ComplementByteString || fun == DefaultFunction::CountSetBits
            || fun == DefaultFunction::FindFirstSetBit || fun == DefaultFunction::Ripemd_160,
        args@.len() == spec_arity(fun),
        costs.wf(),
    ensures
        outcome_view(r) == spec_call(fun, values_view(args@), semantics, *costs),
{
    proof {
        lemma_values_view_index(args@);
    }
    let b = match unwrap_byte_string(&*args[0]) {
        Ok(x) => x,
        Err(e) => {
            return Outcome::Failed(e);
        },
    };
    let sizes = vec![byte_string_ex_mem(b.as_slice())];
    proof {
        assert(sizes@ =~= seq![bytes_size(b@)]);
    }
    let cost = costs.cost(fun, sizes.as_slice());
    let value = match fun {
        DefaultFunction::ComplementByteString => Value::byte_string(complement(b)),
        DefaultFunction::CountSetBits => Value::integer(count_set_bits(b)),
        DefaultFunction::FindFirstSetBit => Value::integer(find_first_set_bit(b)),
        _ => Value::byte_string(super::crypto::ripemd_160(b.as_slice())),
    };
    Outcome::Charged(cost, Ok(value))
}

/// Calls `readBit`, `shiftByteString` or `rotateByteString`.
pub fn call_bytes_int<'a>(
    fun: DefaultFunction,
    args: &Vec<Rc<Value<'a>>>,
    semantics: BuiltinSemantics,
    costs: &BuiltinCosts,
) -> (r: Outcome<'a>)
    requires
        fun == DefaultFunction::ReadBit || fun == DefaultFunction::ShiftByteString
            || fun == DefaultFunction::RotateByteString,
        args@.len() == spec_arity(fun),
        costs.wf(),
    ensures
        outcome_view(r) == spec_call(fun, values_view(args@), semantics, *costs),
{
    proof {
        lemma_values_view_index(args@);
    }
    let b = match unwrap_byte_string(&*args[0]) {
        Ok(x) => x,
        Err(e) => {
            return Outcome::Failed(e);
        },
    };
    let k = match unwrap_integer(&*args[1]) {
        Ok(x) => x,
        Err(e) => {
            return Outcome::Failed(e);
        },
    };
    let sizes = vec![byte_string_ex_mem(b.as_slice()), integer_ex_mem(k)];
    proof {
        assert(sizes@ =~= seq![bytes_size(b@), spec_integer_ex_mem(k@) as i64]);
    }
    let cost = costs.cost(fun, sizes.as_slice());
    let kn = k.normalize();
    let result = match fun {
        DefaultFunction::ReadBit => match bit_position(&kn, b.len()) {
            Some((p, t)) => Ok(Value::bool(byte_bit(b[p], t))),
            None => Err(MachineError::Runtime(RuntimeError::ReadBitOutOfBounds)),
        },
        DefaultFunction::ShiftByteString => Ok(Value::byte_string(shift(b, &kn))),
        _ => Ok(Value::byte_string(rotate(b, &kn))),
    };
    Outcome::Charged(cost, result)
}

/// `b` with the bit of each index of `ixs`, in turn, set to `v`.
fn apply_write_bits(b: &Vec<u8>, ixs: &Vec<Constant>, v: bool) -> (r: Result<Vec<u8>, MachineError>)
    ensures
        match write_bits(b@, constants_view(ixs@), v) {
            Ok(x) => r matches Ok(y) && y@ == x,
            Err(e) => r == Err::<Vec<u8>, MachineError>(e),
        },
{
    let ghost cv = constants_view(ixs@);
    proof {
        lemma_constants_view_index(ixs@);
        assert(cv.subrange(0, cv.len() as int) =~= cv);
    }
    let mut out = crate::constant::copy_bytes(b);
    let mut k: usize = 0;
    while k < ixs.len()
        invariant
            k <= ixs@.len(),
            cv == constants_view(ixs@),
            cv.len() == ixs@.len(),
            forall|j: int| 0 <= j < ixs@.len() ==> #[trigger] cv[j] == ixs@[j]@,
            write_bits(b@, cv, v) == write_bits(out@, cv.subrange(k as int, cv.len() as int), v),
        decreases ixs@.len() - k,
    {
        let ghost rest = cv.subrange(k as int, cv.len() as int);
        proof {
            assert(rest[0] == cv[k as int]);
            assert(rest.drop_first() =~= cv.subrange(k + 1, cv.len() as int));
        }
        match &ixs[k] {
            Constant::Integer(i) => {
                let n = i.normalize();
                match bit_position(&n, out.len()) {
                    Some((p, t)) => {
                        assign_bit(&mut out, p, t, v);
                    },
                    None => {
                        return Err(MachineError::Runtime(RuntimeError::WriteBitsOutOfBounds));
                    },
                }
            },
            _ => {
                return Err(MachineError::Runtime(RuntimeError::TypeMismatch));
            },
        }
        k += 1;
    }
    proof {
        assert(cv.subrange(ixs@.len() as int, cv.len() as int) =~= Seq::<ConstantV>::empty());
    }
    Ok(out)
}

/// Calls `writeBits`.
pub fn call_write_bits<'a>(
    fun: DefaultFunction,
    args: &Vec<Rc<Value<'a>>>,
    semantics: BuiltinSemantics,
    costs: &BuiltinCosts,
) -> (r: Outcome<'a>)
    requires
        fun == DefaultFunction::WriteBits,
        args@.len() == spec_arity(fun),
        costs.wf(),
    ensures
        outcome_view(r) == spec_call(fun, values_view(args@), semantics, *costs),
{
    proof {
        lemma_values_view_index(args@);
    }
    let b = match unwrap_byte_string(&*args[0]) {
        Ok(x) => x,
        Err(e) => {
            return Outcome::Failed(e);
        },
    };
    let (t, ixs) = match unwrap_list(&*args[1]) {
        Ok(p) => p,
        Err(e) => {
            return Outcome::Failed(e);
        },
    };
    let v = match unwrap_bool(&*args[2]) {
        Ok(x) => x,
        Err(e) => {
            return Outcome::Failed(e);
        },
    };
    let sizes = vec![byte_string_ex_mem(b.as_slice()), value_ex_mem(&*args[1]), BOOL_EX_MEM];
    proof {
        assert(sizes@ =~= seq![bytes_size(b@), super::semantics::spec_value_ex_mem(values_view(args@)[1]), BOOL_EX_MEM]);
    }
    let cost = costs.cost(fun, sizes.as_slice());
    if !same_type(t, &Type::Integer) {
        return Outcome::Charged(cost, Err(MachineError::Runtime(RuntimeError::TypeMismatch)));
    }
    let result = match apply_write_bits(b, ixs, v) {
        Ok(x) => Ok(Value::byte_string(x)),
        Err(e) => Err(e),
    };
    Outcome::Charged(cost, result)
}

/// Calls `replicateByte`.
pub fn call_replicate<'a>(
    fun: DefaultFunction,
    args: &Vec<Rc<Value<'a>>>,
    semantics: BuiltinSemantics,
    costs: &BuiltinCosts,
) -> (r: Outcome<'a>)
    requires
        fun == DefaultFunction::ReplicateByte,
        args@.len() == spec_arity(fun),
        costs.wf(),
    ensures
        outcome_view(r) == spec_call(fun, values_view(args@), semantics, *costs),
{
    proof {
        lemma_values_view_index(args@);
    }
    let n = match unwrap_integer(&*args[0]) {
        Ok(x) => x,
        Err(e) => {
            return Outcome::Failed(e);
        },
    };
    let w = match unwrap_integer(&*args[1]) {
        Ok(x) => x,
        Err(e) => {
            return Outcome::Failed(e);
        },
    };
    let sizes = vec![integer_ex_mem(n), integer_ex_mem(w)];
    proof {
        assert(sizes@ =~= super::semantics::int_sizes(n@, w@));
    }
    let cost = costs.cost(fun, sizes.as_slice());
    let zero = Integer::from_u64(0);
    let limit = Integer::from_u64(8192);
    let top = Integer::from_u64(255);
    if n.less_than(&zero) {
        return Outcome::Charged(cost, Err(MachineError::Runtime(RuntimeError::ReplicateByteNegativeSize)));
    }
    if limit.less_than(n) {
        return Outcome::Charged(cost, Err(MachineError::Runtime(RuntimeError::ReplicateByteSizeTooBig)));
    }
    if w.less_than(&zero) || top.less_than(w) {
        return Outcome::Charged(cost, Err(MachineError::Runtime(RuntimeError::OutsideByteBounds)));
    }
    let count = match n.normalize().to_usize() {
        Some(x) => x,
        None => {
            return Outcome::Charged(cost, Err(MachineError::Runtime(RuntimeError::ReplicateByteSizeTooBig)));
        },
    };
    let byte = match w.normalize().to_u64() {
        Some(x) => x as u8,
        None => {
            return Outcome::Charged(cost, Err(MachineError::Runtime(RuntimeError::OutsideByteBounds)));
        },
    };
    Outcome::Charged(cost, Ok(Value::byte_string(replicate(count, byte))))
}

/// Calls `integerToByteString`.
pub fn call_integer_to_bytes<'a>(
    fun: DefaultFunction,
    args: &Vec<Rc<Value<'a>>>,
    semantics: BuiltinSemantics,
    costs: &BuiltinCosts,
) -> (r: Outcome<'a>)
    requires
        fun == DefaultFunction::IntegerToByteString,
        args@.len() == spec_arity(fun),
        costs.wf(),
    ensures
        outcome_view(r) == spec_call(fun, values_view(args@), semantics, *costs),
{
    proof {
        lemma_values_view_index(args@);
    }
    let be = match unwrap_bool(&*args[0]) {
        Ok(x) => x,
        Err(e) => {
            return Outcome::Failed(e);
        },
    };
    let w = match unwrap_integer(&*args[1]) {
        Ok(x) => x,
        Err(e) => {
            return Outcome::Failed(e);
        },
    };
    let n = match unwrap_integer(&*args[2]) {
        Ok(x) => x,
        Err(e) => {
            return Outcome::Failed(e);
        },
    };
    let sizes = vec![BOOL_EX_MEM, integer_ex_mem(w), integer_ex_mem(n)];
    proof {
        assert(sizes@ =~= seq![BOOL_EX_MEM, spec_integer_ex_mem(w@) as i64, spec_integer_ex_mem(n@) as i64]);
    }
    let cost = costs.cost(fun, sizes.as_slice());
    let zero = Integer::from_u64(0);
    let limit = Integer::from_u64(8192);
    if w.less_than(&zero) {
        return Outcome::Charged(cost, Err(MachineError::Runtime(RuntimeError::IntegerToByteStringNegativeSize)));
    }
    if limit.less_than(w) {
        return Outcome::Charged(cost, Err(MachineError::Runtime(RuntimeError::IntegerToByteStringSizeTooBig)));
    }
    if n.less_than(&zero) {
        return Outcome::Charged(cost, Err(MachineError::Runtime(RuntimeError::IntegerToByteStringNegativeInput)));
    }
    let m: Vec<u8> = if n.equals(&zero) {
        Vec::new()
    } else {
        n.to_bytes_be()
    };
    let width = match w.normalize().to_usize() {
        Some(x) => x,
        None => {
            return Outcome::Charged(cost, Err(MachineError::Runtime(RuntimeError::IntegerToByteStringSizeTooBig)));
        },
    };
    if width == 0 && m.len() > 8192 {
        return Outcome::Charged(cost, Err(MachineError::Runtime(RuntimeError::IntegerToByteStringSizeTooBig)));
    }
    if width > 0 && m.len() > width {
        return Outcome::Charged(cost, Err(MachineError::Runtime(RuntimeError::IntegerToByteStringSizeTooSmall)));
    }
    let target = if width == 0 {
        m.len()
    } else {
        width
    };
    Outcome::Charged(cost, Ok(Value::byte_string(pad_bytes(be, target, &m))))
}

/// Calls `byteStringToInteger`.
pub fn call_bytes_to_integer<'a>(
    fun: DefaultFunction,
    args: &Vec<Rc<Value<'a>>>,
    semantics: BuiltinSemantics,
    costs: &BuiltinCosts,
) -> (r: Outcome<'a>)
    requires
        fun == DefaultFunction::ByteStringToInteger,
        args@.len() == spec_arity(fun),
        costs.wf(),
    ensures
        outcome_view(r) == spec_call(fun, values_view(args@), semantics, *costs),
{
    proof {
        lemma_values_view_index(args@);
    }
    let be = match unwrap_bool(&*args[0]) {
        Ok(x) => x,
        Err(e) => {
            return Outcome::Failed(e);
        },
    };
    let b = match unwrap_byte_string(&*args[1]) {
        Ok(x) => x,
        Err(e) => {
            return Outcome::Failed(e);
        },
    };
    let sizes = vec![BOOL_EX_MEM, byte_string_ex_mem(b.as_slice())];
    proof {
        assert(sizes@ =~= seq![BOOL_EX_MEM, bytes_size(b@)]);
    }
    let cost = costs.cost(fun, sizes.as_slice());
    Outcome::Charged(cost, Ok(Value::integer(integer_of_bytes(be, b))))
}

/// The entries of a list of data pairs, when every item is one.
fn list_items_as_pairs(items: &Vec<Constant>) -> (r: Option<Vec<(PlutusData, PlutusData)>>)
    ensures
        match list_pairs(constants_view(items@)) {
            Some(ps) => r matches Some(v) && pairs_view(v@) == ps,
            None => r is None,
        },
{
    let ghost cv = constants_view(items@);
    proof {
        lemma_constants_view_index(items@);
        assert(cv.subrange(0, 0) =~= Seq::<ConstantV>::empty());
    }
    let mut out: Vec<(PlutusData, PlutusData)> = Vec::new();
    let mut k: usize = 0;
    while k < items.len()
        invariant
            k <= items@.len(),
            cv == constants_view(items@),
            cv.len() == items@.len(),
            forall|j: int| 0 <= j < items@.len() ==> #[trigger] cv[j] == items@[j]@,
            list_pairs(cv.subrange(0, k as int)) == Some(pairs_view(out@)),
        decreases items@.len() - k,
    {
        proof {
            assert(cv.subrange(0, k + 1).drop_last() =~= cv.subrange(0, k as int));
            assert(cv.subrange(0, k + 1).last() == cv[k as int]);
        }
        let entry = match &items[k] {
            Constant::ProtoPair(_, _, a, b) => {
                proof {
                    assert(cv[k as int] == ConstantV::ProtoPair(
                        cv[k as int]->ProtoPair_0,
                        cv[k as int]->ProtoPair_1,
                        Box::new(a@),
                        Box::new(b@),
                    ));
                }
                match (&**a, &**b) {
                    (Constant::Data(x), Constant::Data(y)) => {
                        proof {
                            assert(a@ == ConstantV::Data(x@));
                            assert(b@ == ConstantV::Data(y@));
                        }
                        Some((copy_data(x), copy_data(y)))
                    },
                    (Constant::Data(_), _) => {
                        proof {
                            reveal_with_fuel(crate::constant::constant_view, 2);
                            assert(!(b@ is Data));
                        }
                        None
                    },
                    _ => {
                        proof {
                            reveal_with_fuel(crate::constant::constant_view, 2);
                            assert(!(a@ is Data));
                        }
                        None
                    },
                }
            },
            _ => {
                proof {
                    reveal_with_fuel(crate::constant::constant_view, 2);
                    assert(!(cv[k as int] is ProtoPair));
                }
                None
            },
        };
        match entry {
            Some(e) => {
                proof {
                    lemma_pairs_view_push(out@, e);
                }
                out.push(e);
            },
            None => {
                proof {
                    lemma_list_pairs_prefix_none(cv, k + 1);
                }
                return None;
            },
        }
        k += 1;
    }
    proof {
        assert(cv.subrange(0, items@.len() as int) =~= cv);
    }
    Some(out)
}

/// A sequence with a non-pair item up to `n` has no entries.
proof fn lemma_list_pairs_prefix_none(s: Seq<ConstantV>, n: int)
    requires
        0 < n <= s.len(),
        list_pairs(s.subrange(0, n)) is None,
    ensures
        list_pairs(s) is None,
    decreases s.len() - n,
{
    if n < s.len() {
        assert(s.subrange(0, n + 1).drop_last() =~= s.subrange(0, n));
        lemma_list_pairs_prefix_none(s, n + 1);
    } else {
        assert(s.subrange(0, n) =~= s);
    }
}

/// Entries as pair constants of data items.
fn entries_as_constants(es: &Vec<(PlutusData, PlutusData)>) -> (r: Vec<Constant>)
    ensures
        constants_view(r@) == pair_constants(pairs_view(es@)),
{
    let ghost pv = pairs_view(es@);
    proof {
        lemma_pairs_view_index(es@);
    }
    let mut out: Vec<Constant> = Vec::new();
    let mut k: usize = 0;
    proof {
        assert(constants_view(out@) =~= pair_constants(pv).subrange(0, 0));
    }
    while k < es.len()
        invariant
            k <= es@.len(),
            pv == pairs_view(es@),
            pv.len() == es@.len(),
            forall|j: int| 0 <= j < es@.len() ==> #[trigger] pv[j] == (data_view(es@[j].0), data_view(es@[j].1)),
            constants_view(out@) == pair_constants(pv).subrange(0, k as int),
        decreases es@.len() - k,
    {
        let x = copy_data(&es[k].0);
        let y = copy_data(&es[k].1);
        let ghost xv = x@;
        let ghost yv = y@;
        let cx = Constant::Data(x);
        let cy = Constant::Data(y);
        proof {
            assert(cx@ == ConstantV::Data(xv));
            assert(cy@ == ConstantV::Data(yv));
        }
        let c = Constant::ProtoPair(Type::Data, Type::Data, Box::new(cx), Box::new(cy));
        proof {
            assert(c@ == pair_constants(pv)[k as int]);
            lemma_constants_view_push(out@, c);
            assert(pair_constants(pv).subrange(0, k + 1) =~= pair_constants(pv).subrange(0, k as int).push(
                pair_constants(pv)[k as int],
            ));
        }
        out.push(c);
        k += 1;
    }
    proof {
        assert(pair_constants(pv).subrange(0, es@.len() as int) =~= pair_constants(pv));
    }
    out
}

/// Calls `mapData`, `unMapData`, `dropList`, `lengthOfArray`,
/// `listToArray` or `indexArray`.
pub fn call_collection<'a>(
    fun: DefaultFunction,
    args: &Vec<Rc<Value<'a>>>,
    semantics: BuiltinSemantics,
    costs: &BuiltinCosts,
) -> (r: Outcome<'a>)
    requires
        fun == DefaultFunction::MapData || fun == DefaultFunction::UnMapData
            || fun == DefaultFunction::DropList || fun == DefaultFunction::LengthOfArray
            || fun == DefaultFunction::ListToArray || fun == DefaultFunction::IndexArray,
        args@.len() == spec_arity(fun),
        costs.wf(),
    ensures
        outcome_view(r) == spec_call(fun, values_view(args@), semantics, *costs),
{
    proof {
        lemma_values_view_index(args@);
    }
    match fun {
        DefaultFunction::MapData => {
            let (t, items) = match unwrap_list(&*args[0]) {
                Ok(p) => p,
                Err(e) => {
                    return Outcome::Failed(e);
                },
            };
            let pair_type = Type::Pair(Box::new(Type::Data), Box::new(Type::Data));
            if !same_type(t, &pair_type) {
                return Outcome::Failed(MachineError::Runtime(RuntimeError::TypeMismatch));
            }
            match list_items_as_pairs(items) {
                Some(ps) => Outcome::Uncharged(Ok(Value::con(Rc::new(Constant::Data(PlutusData::AssocList(ps)))))),
                None => Outcome::Failed(MachineError::Runtime(RuntimeError::TypeMismatch)),
            }
        },
        DefaultFunction::UnMapData => {
            let d = match unwrap_data(&*args[0]) {
                Ok(x) => x,
                Err(e) => {
                    return Outcome::Failed(e);
                },
            };
            match d {
                PlutusData::AssocList(entries) => {
                    let items = entries_as_constants(entries);
                    let pair_type = Type::Pair(Box::new(Type::Data), Box::new(Type::Data));
                    Outcome::Uncharged(Ok(Value::con(Rc::new(Constant::ProtoList(pair_type, items)))))
                },
                _ => Outcome::Failed(MachineError::Runtime(RuntimeError::MalFormedData)),
            }
        },
        DefaultFunction::DropList => {
            let n = match unwrap_integer(&*args[0]) {
                Ok(x) => x,
                Err(e) => {
                    return Outcome::Failed(e);
                },
            };
            let (t, items) = match unwrap_list(&*args[1]) {
                Ok(p) => p,
                Err(e) => {
                    return Outcome::Failed(e);
                },
            };
            let zero = Integer::from_u64(0);
            let len = Integer::from_u64(items.len() as u64);
            let count: usize = if n.less_than_equals(&zero) {
                0
            } else if len.less_than_equals(n) {
                items.len()
            } else {
                match n.normalize().to_usize() {
                    Some(x) => x,
                    None => items.len(),
                }
            };
            proof {
                lemma_constants_view_index(items@);
            }
            let rest = copy_constants_from(items, count);
            Outcome::Uncharged(Ok(Value::con(Rc::new(Constant::ProtoList(copy_type(t), rest)))))
        },
        DefaultFunction::LengthOfArray => {
            let (_, items) = match unwrap_array(&*args[0]) {
                Ok(p) => p,
                Err(e) => {
                    return Outcome::Failed(e);
                },
            };
            proof {
                lemma_constants_view_index(items@);
            }
            Outcome::Uncharged(Ok(Value::integer(Integer::from_u64(items.len() as u64))))
        },
        DefaultFunction::ListToArray => {
            let (t, items) = match unwrap_list(&*args[0]) {
                Ok(p) => p,
                Err(e) => {
                    return Outcome::Failed(e);
                },
            };
            proof {
                lemma_constants_view_index(items@);
                assert(constants_view(items@).subrange(0, items@.len() as int) =~= constants_view(items@));
            }
            let all = copy_constants_from(items, 0);
            Outcome::Uncharged(Ok(Value::con(Rc::new(Constant::ProtoArray(copy_type(t), all)))))
        },
        _ => {
            let (_, items) = match unwrap_array(&*args[0]) {
                Ok(p) => p,
                Err(e) => {
                    return Outcome::Failed(e);
                },
            };
            let i = match unwrap_integer(&*args[1]) {
                Ok(x) => x,
                Err(e) => {
                    return Outcome::Failed(e);
                },
            };
            proof {
                lemma_constants_view_index(items@);
            }
            let zero = Integer::from_u64(0);
            let len = Integer::from_u64(items.len() as u64);
            if i.less_than(&zero) || !i.less_than(&len) {
                return Outcome::Failed(MachineError::Runtime(RuntimeError::IndexArrayOutOfBounds));
            }
            match i.normalize().to_usize() {
                Some(k) => Outcome::Uncharged(Ok(Value::con(Rc::new(copy_constant(&items[k]))))),
                None => Outcome::Failed(MachineError::Runtime(RuntimeError::IndexArrayOutOfBounds)),
            }
        },
    }
}

} // verus!
