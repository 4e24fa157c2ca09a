//! Memory-size measures of constants, used as the argument sizes of cost
//! functions.

use vstd::prelude::*;

use crate::constant::{Constant, ConstantV, DataV, PlutusData, constants_view, datas_view, pairs_view, lemma_datas_view_index, lemma_constants_view_index};
use crate::integer::{abs, bit_length, Integer};

use super::saturating::{clamp_i64, saturating_add_i64};

verus! {

/// The memory size of a unit value.
pub const UNIT_EX_MEM: i64 = 1;

/// The memory size of a boolean.
pub const BOOL_EX_MEM: i64 = 1;

/// The memory size of a byte string of `len` bytes: one unit per started
/// 8-byte word, and 1 for the empty string.
pub open spec fn spec_byte_string_ex_mem(len: int) -> int {
    if len == 0 {
        1
    } else {
        (len - 1) / 8 + 1
    }
}

/// The memory size of a byte string.
pub fn byte_string_ex_mem(b: &[u8]) -> (r: i64)
    ensures
        r == spec_byte_string_ex_mem(b@.len() as int),
{
    if b.len() == 0 {
        1
    } else {
        (((b.len() - 1) / 8) + 1) as i64
    }
}

/// The memory size of a string: its number of characters (at most
/// `i64::MAX`).
pub fn string_ex_mem(s: &str) -> (r: i64)
    ensures
        r == clamp_i64(s@.len() as int),
{
    let mut n: i64 = 0;
    for c in it: s.chars()
        invariant
            n == clamp_i64(it.index() as int),
            it.seq() == s@,
    {
        if n < i64::MAX {
            n = n + 1;
        }
    }
    n
}

/// The memory size of an integer: one unit per started 64-bit word of its
/// magnitude, and 1 for zero.
pub open spec fn spec_integer_ex_mem(v: int) -> int {
    if v == 0 {
        1
    } else {
        (bit_length(abs(v) as nat) - 1) / 64 + 1
    }
}

/// The memory size of an integer.
pub fn integer_ex_mem(i: &Integer) -> (r: i64)
    ensures
        r == spec_integer_ex_mem(i@),
{
    let bits = i.bits();
    proof {
        lemma_bit_length_zero(abs(i@) as nat);
    }
    if bits == 0 {
        1
    } else {
        (((bits - 1) / 64) + 1) as i64
    }
}

/// The floor of the base-2 logarithm of the magnitude of `i`; 0 for zero.
pub fn integer_log2(i: &Integer) -> (r: i64)
    ensures
        r == (if i@ == 0 { 0 } else { clamp_i64(bit_length(abs(i@) as nat) - 1) }),
{
    let bits = i.bits();
    proof {
        lemma_bit_length_zero(abs(i@) as nat);
    }
    if bits == 0 {
        0
    } else if bits - 1 > i64::MAX as u64 {
        i64::MAX
    } else {
        (bits - 1) as i64
    }
}

/// Only zero has no binary digits.
proof fn lemma_bit_length_zero(n: nat)
    ensures
        (bit_length(n) == 0) <==> (n == 0),
{
}

/// The memory size of a list constant: its number of elements (at most
/// `i64::MAX`).
pub fn proto_list_ex_mem(items: &[Constant]) -> (r: i64)
    ensures
        r == clamp_i64(items@.len() as int),
{
    let n = items.len() as u64;
    if n > 0x7fff_ffff_ffff_ffffu64 {
        i64::MAX
    } else {
        n as i64
    }
}

/// The memory size of a pair constant: the largest size, whatever the pair.
pub fn pair_ex_mem(first: &Constant, second: &Constant) -> (r: i64)
    ensures
        r == i64::MAX,
{
    i64::MAX
}

/// The memory size of a data item: 4 per node, plus the sizes of integer
/// and byte-string leaves; sums saturate at `i64::MAX`.
pub open spec fn spec_data_ex_mem(d: DataV) -> i64
    decreases d,
{
    match d {
        DataV::Constr(_, fields) => clamp_i64(4 + spec_datas_ex_mem(fields)),
        DataV::AssocList(entries) => clamp_i64(4 + spec_pairs_ex_mem(entries)),
        DataV::Integer(v) => clamp_i64(4 + spec_integer_ex_mem(v)),
        DataV::ByteString(b) => clamp_i64(4 + spec_byte_string_ex_mem(b.len() as int)),
        DataV::List(items) => clamp_i64(4 + spec_datas_ex_mem(items)),
    }
}

/// The saturating sum of the memory sizes of data items, left to right.
pub open spec fn spec_datas_ex_mem(s: Seq<DataV>) -> i64
    decreases s,
{
    if s.len() == 0 {
        0
    } else {
        clamp_i64(spec_datas_ex_mem(s.drop_last()) + spec_data_ex_mem(s.last()))
    }
}

/// The saturating sum of the memory sizes of entries, left to right.
pub open spec fn spec_pairs_ex_mem(s: Seq<(DataV, DataV)>) -> i64
    decreases s,
{
    if s.len() == 0 {
        0
    } else {
        clamp_i64(
            clamp_i64(spec_pairs_ex_mem(s.drop_last()) + spec_data_ex_mem(s.last().0))
                + spec_data_ex_mem(s.last().1),
        )
    }
}

/// The memory size of a data item.
pub fn data_ex_mem(d: &PlutusData) -> (r: i64)
    ensures
        r == spec_data_ex_mem(d@),
    decreases d,
{
    match d {
        PlutusData::Constr { fields, .. } => {
            let total = datas_ex_mem(d, fields);
            saturating_add_i64(4, total)
        },
        PlutusData::AssocList(entries) => {
            let mut acc: i64 = 0;
            let mut k: usize = 0;
            proof {
                crate::constant::lemma_pairs_view_index(entries@);
                assert(pairs_view(entries@).subrange(0, 0) =~= Seq::<(DataV, DataV)>::empty());
            }
            while k < entries.len()
                invariant
                    k <= entries@.len(),
                    *d == PlutusData::AssocList(*entries),
                    pairs_view(entries@).len() == entries@.len(),
                    forall|j: int| 0 <= j < entries@.len() ==> #[trigger] pairs_view(entries@)[j] == (entries@[j].0@, entries@[j].1@),
                    acc == spec_pairs_ex_mem(pairs_view(entries@).subrange(0, k as int)),
                decreases entries@.len() - k,
            {
                proof {
                    assert(decreases_to!(*entries => entries@));
                    assert(decreases_to!(entries@ => entries@[k as int]));
                    assert(decreases_to!(*d => (*d)->AssocList_0));
                }
                let a = data_ex_mem(&entries[k].0);
                let b = data_ex_mem(&entries[k].1);
                proof {
                    let pv = pairs_view(entries@);
                    assert(pv.subrange(0, k + 1).drop_last() =~= pv.subrange(0, k as int));
                    assert(pv.subrange(0, k + 1).last() == pv[k as int]);
                }
                acc = saturating_add_i64(saturating_add_i64(acc, a), b);
                k += 1;
            }
            proof {
                assert(pairs_view(entries@).subrange(0, entries@.len() as int) =~= pairs_view(entries@));
            }
            saturating_add_i64(4, acc)
        },
        PlutusData::Integer(i) => saturating_add_i64(4, integer_ex_mem(i)),
        PlutusData::ByteString(b) => saturating_add_i64(4, byte_string_ex_mem(b.as_slice())),
        PlutusData::List(items) => {
            let total = datas_ex_mem(d, items);
            saturating_add_i64(4, total)
        },
    }
}

/// The saturating sum of the memory sizes of a node's children.
fn datas_ex_mem(parent: &PlutusData, items: &Vec<PlutusData>) -> (r: i64)
    requires
        *parent == (PlutusData::List(*items)) || (parent matches PlutusData::Constr { fields, .. } && fields == *items),
    ensures
        r == spec_datas_ex_mem(datas_view(items@)),
    decreases parent, 0nat,
{
    let mut acc: i64 = 0;
    let mut k: usize = 0;
    proof {
        lemma_datas_view_index(items@);
        assert(datas_view(items@).subrange(0, 0) =~= Seq::<DataV>::empty());
    }
    while k < items.len()
        invariant
            k <= items@.len(),
            *parent == (PlutusData::List(*items)) || (parent matches PlutusData::Constr { fields, .. } && fields == *items),
            datas_view(items@).len() == items@.len(),
            forall|j: int| 0 <= j < items@.len() ==> #[trigger] datas_view(items@)[j] == items@[j]@,
            acc == spec_datas_ex_mem(datas_view(items@).subrange(0, k as int)),
        decreases items@.len() - k,
    {
        proof {
            assert(decreases_to!(*items => items@));
            assert(decreases_to!(items@ => items@[k as int]));
            if parent is List {
                assert(decreases_to!(*parent => (*parent)->List_0));
            } else {
                assert(decreases_to!(*parent => (*parent)->fields));
            }
        }
        let a = data_ex_mem(&items[k]);
        proof {
            let dv = datas_view(items@);
            assert(dv.subrange(0, k + 1).drop_last() =~= dv.subrange(0, k as int));
            assert(dv.subrange(0, k + 1).last() == dv[k as int]);
        }
        acc = saturating_add_i64(acc, a);
        k += 1;
    }
    proof {
        assert(datas_view(items@).subrange(0, items@.len() as int) =~= datas_view(items@));
    }
    acc
}

/// The memory size of a constant.
pub open spec fn spec_constant_ex_mem(c: ConstantV) -> i64 {
    match c {
        ConstantV::Integer(v) => spec_integer_ex_mem(v) as i64,
        ConstantV::ByteString(b) => spec_byte_string_ex_mem(b.len() as int) as i64,
        ConstantV::String(s) => clamp_i64(s.len() as int),
        ConstantV::Unit => UNIT_EX_MEM,
        ConstantV::Boolean(_) => BOOL_EX_MEM,
        ConstantV::ProtoList(_, items) => clamp_i64(items.len() as int),
        ConstantV::ProtoArray(_, items) => clamp_i64(items.len() as int),
        ConstantV::ProtoPair(..) => i64::MAX,
        ConstantV::Data(d) => spec_data_ex_mem(d),
    }
}

/// The memory size of a constant. Sizes of strings and lists are their
/// lengths.
pub fn constant_ex_mem(c: &Constant) -> (r: i64)
    ensures
        r == spec_constant_ex_mem(c@),
{
    match c {
        Constant::Integer(i) => integer_ex_mem(i),
        Constant::ByteString(b) => {
            let n = b.len();
            proof {
                assert(spec_byte_string_ex_mem(b@.len() as int) <= i64::MAX);
            }
            byte_string_ex_mem(b.as_slice())
        },
        Constant::String(s) => string_ex_mem(s.as_str()),
        Constant::Unit => UNIT_EX_MEM,
        Constant::Boolean(_) => BOOL_EX_MEM,
        Constant::ProtoList(_, items) => {
            proof {
                lemma_constants_view_index(items@);
            }
            proto_list_ex_mem(items.as_slice())
        },
        Constant::ProtoArray(_, items) => {
            proof {
                lemma_constants_view_index(items@);
            }
            proto_list_ex_mem(items.as_slice())
        },
        Constant::ProtoPair(_, _, a, b) => pair_ex_mem(a, b),
        Constant::Data(d) => data_ex_mem(d),
    }
}

} // verus!
