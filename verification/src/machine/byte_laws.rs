//! What the byte-string built-ins give, stated over their arguments.

use vstd::prelude::*;

use crate::builtin::{BuiltinSemantics, DefaultFunction};
use crate::constant::ConstantV;
use crate::cost_model::builtin_costs::BuiltinCosts;

use super::error::{MachineError, RuntimeError};
use super::semantics::{spec_call, CallOutcome};
use super::value::ValueV;

verus! {

/// The integer constant `i` as a value.
pub open spec fn int_arg(i: int) -> ValueV {
    ValueV::Con(ConstantV::Integer(i))
}

/// The byte-string constant `b` as a value.
pub open spec fn bytes_arg(b: Seq<u8>) -> ValueV {
    ValueV::Con(ConstantV::ByteString(b))
}

/// The bytes a call gave, where it gave a byte string.
pub open spec fn bytes_of(o: CallOutcome) -> Seq<u8> {
    match o {
        CallOutcome::Charged(_, Ok(ValueV::Con(ConstantV::ByteString(x)))) => x,
        _ => Seq::empty(),
    }
}

/// Whether a call charged something and gave a byte string.
pub open spec fn gives_some_bytes(o: CallOutcome) -> bool {
    o matches CallOutcome::Charged(_, Ok(ValueV::Con(ConstantV::ByteString(_))))
}

/// `sliceByteString skip take b` drops the first `skip` bytes of `b` (none
/// for a negative `skip`) and keeps at most `take` of the rest (none for a
/// negative `take`): its length is `min(max(take, 0), max(len b -
/// max(skip, 0), 0))` and its byte `i` is byte `max(skip, 0) + i` of `b`.
pub proof fn lemma_slice_byte_string(
    skip: int,
    take: int,
    b: Seq<u8>,
    semantics: BuiltinSemantics,
    costs: BuiltinCosts,
)
    requires
        b.len() <= usize::MAX,
    ensures
        ({
            let o = spec_call(DefaultFunction::SliceByteString, seq![int_arg(skip), int_arg(take), bytes_arg(b)], semantics, costs);
            let s = if skip > 0 { skip } else { 0 };
            let t = if take > 0 { take } else { 0 };
            let rest = if b.len() - s > 0 { b.len() - s } else { 0 };
            &&& gives_some_bytes(o)
            &&& bytes_of(o).len() == (if t < rest { t } else { rest })
            &&& forall|i: int| 0 <= i < bytes_of(o).len() ==> #[trigger] bytes_of(o)[i] == b[s + i]
        }),
{
}

/// `consByteString a b` puts the byte `a` in front of `b`: under the newer
/// semantics only for `0 <= a <= 255`, else it fails; under the older one
/// with `a` taken modulo 256.
pub proof fn lemma_cons_byte_string(a: int, b: Seq<u8>, semantics: BuiltinSemantics, costs: BuiltinCosts)
    ensures
        ({
            let o = spec_call(DefaultFunction::ConsByteString, seq![int_arg(a), bytes_arg(b)], semantics, costs);
            &&& (semantics == BuiltinSemantics::V2 && (a < 0 || a > 255)) ==> (o matches CallOutcome::Charged(
                _,
                Err(MachineError::Runtime(RuntimeError::ByteStringConsNotAByte)),
            ))
            &&& (semantics == BuiltinSemantics::V1 || 0 <= a <= 255) ==> {
                &&& gives_some_bytes(o)
                &&& bytes_of(o).len() == b.len() + 1
                &&& (bytes_of(o)[0] as int - a) % 256 == 0
                &&& forall|i: int| 0 <= i < b.len() ==> #[trigger] bytes_of(o)[i + 1] == b[i]
            }
            &&& 0 <= a <= 255 && gives_some_bytes(o) ==> bytes_of(o)[0] == a
        }),
{
    let o = spec_call(DefaultFunction::ConsByteString, seq![int_arg(a), bytes_arg(b)], semantics, costs);
    if semantics == BuiltinSemantics::V1 || 0 <= a <= 255 {
        let r = bytes_of(o);
        if semantics == BuiltinSemantics::V1 {
            let m = crate::integer::floor_mod(a, 256);
            assert(0 <= m < 256) by {
                vstd::arithmetic::div_mod::lemma_fundamental_div_mod(a, 256);
            }
            assert(m == a % 256) by {
                vstd::arithmetic::div_mod::lemma_fundamental_div_mod(a, 256);
            }
            assert((m - a) % 256 == 0) by {
                vstd::arithmetic::div_mod::lemma_fundamental_div_mod(a, 256);
                vstd::arithmetic::div_mod::lemma_mod_multiples_basic(-(a / 256), 256);
            }
        }
        assert forall|i: int| 0 <= i < b.len() implies #[trigger] r[i + 1] == b[i] by {}
    }
}

/// `indexByteString b i` is byte `i` of `b` when `0 <= i < len b`, and
/// fails with an out-of-bounds error otherwise.
pub proof fn lemma_index_byte_string(b: Seq<u8>, i: int, semantics: BuiltinSemantics, costs: BuiltinCosts)
    ensures
        ({
            let o = spec_call(DefaultFunction::IndexByteString, seq![bytes_arg(b), int_arg(i)], semantics, costs);
            &&& 0 <= i < b.len() ==> (o matches CallOutcome::Charged(_, Ok(ValueV::Con(ConstantV::Integer(x)))) && x == b[i] as int)
            &&& !(0 <= i < b.len()) ==> (o matches CallOutcome::Charged(
                _,
                Err(MachineError::Runtime(RuntimeError::ByteStringOutOfBounds)),
            ))
        }),
{
}

/// `appendByteString a b` is `a` followed by `b`.
pub proof fn lemma_append_byte_string(a: Seq<u8>, b: Seq<u8>, semantics: BuiltinSemantics, costs: BuiltinCosts)
    ensures
        ({
            let o = spec_call(DefaultFunction::AppendByteString, seq![bytes_arg(a), bytes_arg(b)], semantics, costs);
            &&& gives_some_bytes(o)
            &&& bytes_of(o).len() == a.len() + b.len()
            &&& forall|i: int| 0 <= i < a.len() ==> #[trigger] bytes_of(o)[i] == a[i]
            &&& forall|j: int| 0 <= j < b.len() ==> #[trigger] bytes_of(o)[a.len() + j] == b[j]
        }),
{
}

/// `andByteString`, `orByteString` and `xorByteString` combine the two
/// strings byte by byte from the first: the result is as long as the
/// shorter without padding and as long as the longer with it; where both
/// have a byte it is their and, or, or exclusive or; past the shorter it
/// is the longer's byte.
pub proof fn lemma_bitwise_byte_strings(
    f: DefaultFunction,
    pad: bool,
    a: Seq<u8>,
    b: Seq<u8>,
    semantics: BuiltinSemantics,
    costs: BuiltinCosts,
)
    requires
        f == DefaultFunction::AndByteString || f == DefaultFunction::OrByteString || f
            == DefaultFunction::XorByteString,
    ensures
        ({
            let o = spec_call(f, seq![ValueV::Con(ConstantV::Boolean(pad)), bytes_arg(a), bytes_arg(b)], semantics, costs);
            let r = bytes_of(o);
            let short = if a.len() <= b.len() { a.len() } else { b.len() };
            let long = if a.len() <= b.len() { b.len() } else { a.len() };
            &&& gives_some_bytes(o)
            &&& r.len() == (if pad { long } else { short })
            &&& forall|i: int| 0 <= i < short ==> #[trigger] r[i] == (if f == DefaultFunction::AndByteString {
                a[i] & b[i]
            } else if f == DefaultFunction::OrByteString {
                a[i] | b[i]
            } else {
                a[i] ^ b[i]
            })
            &&& forall|i: int| short <= i < r.len() ==> #[trigger] r[i] == (if a.len() > b.len() { a[i] } else { b[i] })
        }),
{
}

/// `complementByteString b` flips every bit of every byte of `b`.
pub proof fn lemma_complement_byte_string(b: Seq<u8>, semantics: BuiltinSemantics, costs: BuiltinCosts)
    ensures
        ({
            let o = spec_call(DefaultFunction::ComplementByteString, seq![bytes_arg(b)], semantics, costs);
            &&& gives_some_bytes(o)
            &&& bytes_of(o).len() == b.len()
            &&& forall|i: int| 0 <= i < b.len() ==> #[trigger] bytes_of(o)[i] as int == 255 - b[i] as int
        }),
{
    let r = bytes_of(spec_call(DefaultFunction::ComplementByteString, seq![bytes_arg(b)], semantics, costs));
    assert forall|i: int| 0 <= i < b.len() implies #[trigger] r[i] as int == 255 - b[i] as int by {
        let x = b[i];
        assert(!x as int == 255 - x as int) by (bit_vector);
    }
}

/// Whether `a` comes before `b` in dictionary order: `a` is a proper
/// prefix of `b`, or at the first byte where they differ `a`'s is smaller.
pub open spec fn dictionary_before(a: Seq<u8>, b: Seq<u8>) -> bool {
    ||| (a.len() < b.len() && a == b.subrange(0, a.len() as int))
    ||| exists|k: int|
        0 <= k < a.len() && k < b.len() && a.subrange(0, k) == b.subrange(0, k) && #[trigger] a[k] < b[k]
}

proof fn lemma_bytes_lt_dictionary(a: Seq<u8>, b: Seq<u8>)
    ensures
        super::semantics::bytes_lt(a, b) == dictionary_before(a, b),
    decreases a.len(),
{
    if b.len() == 0 {
    } else if a.len() == 0 {
        assert(a =~= b.subrange(0, 0));
    } else if a[0] != b[0] {
        if a[0] < b[0] {
            assert(a.subrange(0, 0) =~= b.subrange(0, 0));
        } else {
            if a.len() < b.len() && a == b.subrange(0, a.len() as int) {
                assert(a[0] == b.subrange(0, a.len() as int)[0]);
            }
            assert forall|k: int|
                0 <= k < a.len() && k < b.len() && a.subrange(0, k) == b.subrange(0, k) implies !(#[trigger] a[k] < b[k]) by {
                if k > 0 {
                    assert(a.subrange(0, k)[0] == b.subrange(0, k)[0]);
                }
            }
        }
    } else {
        let a1 = a.subrange(1, a.len() as int);
        let b1 = b.subrange(1, b.len() as int);
        lemma_bytes_lt_dictionary(a1, b1);
        if dictionary_before(a1, b1) {
            if a1.len() < b1.len() && a1 == b1.subrange(0, a1.len() as int) {
                assert(a =~= b.subrange(0, a.len() as int)) by {
                    assert forall|j: int| 0 <= j < a.len() implies #[trigger] a[j] == b.subrange(0, a.len() as int)[j] by {
                        if j > 0 {
                            assert(a1[j - 1] == b1.subrange(0, a1.len() as int)[j - 1]);
                        }
                    }
                }
            } else {
                let k = choose|k: int|
                    0 <= k < a1.len() && k < b1.len() && a1.subrange(0, k) == b1.subrange(0, k) && #[trigger] a1[k] < b1[k];
                assert(a.subrange(0, k + 1) =~= b.subrange(0, k + 1)) by {
                    assert forall|j: int| 0 <= j < k + 1 implies #[trigger] a.subrange(0, k + 1)[j] == b.subrange(0, k + 1)[j] by {
                        if j > 0 {
                            assert(a1.subrange(0, k)[j - 1] == b1.subrange(0, k)[j - 1]);
                        }
                    }
                }
                assert(a[k + 1] < b[k + 1]);
            }
        } else {
            if a.len() < b.len() && a == b.subrange(0, a.len() as int) {
                assert(a1 =~= b1.subrange(0, a1.len() as int)) by {
                    assert forall|j: int| 0 <= j < a1.len() implies #[trigger] a1[j] == b1.subrange(0, a1.len() as int)[j] by {
                        assert(a[j + 1] == b.subrange(0, a.len() as int)[j + 1]);
                    }
                }
            }
            assert forall|k: int|
                0 <= k < a.len() && k < b.len() && a.subrange(0, k) == b.subrange(0, k) implies !(#[trigger] a[k] < b[k]) by {
                if k > 0 {
                    assert(a1.subrange(0, k - 1) =~= b1.subrange(0, k - 1)) by {
                        assert forall|j: int| 0 <= j < k - 1 implies #[trigger] a1.subrange(0, k - 1)[j] == b1.subrange(0, k - 1)[j] by {
                            assert(a.subrange(0, k)[j + 1] == b.subrange(0, k)[j + 1]);
                        }
                    }
                    assert(!(a1[k - 1] < b1[k - 1]));
                }
            }
        }
    }
}

/// `lessThanByteString a b` holds exactly when `a` comes before `b` in
/// dictionary order, `lessThanEqualsByteString` also when they are equal,
/// and `equalsByteString` exactly when they are equal.
pub proof fn lemma_compare_byte_strings(a: Seq<u8>, b: Seq<u8>, semantics: BuiltinSemantics, costs: BuiltinCosts)
    ensures
        spec_call(DefaultFunction::LessThanByteString, seq![bytes_arg(a), bytes_arg(b)], semantics, costs) matches CallOutcome::Charged(
            _,
            Ok(ValueV::Con(ConstantV::Boolean(r))),
        ) && r == dictionary_before(a, b),
        spec_call(DefaultFunction::LessThanEqualsByteString, seq![bytes_arg(a), bytes_arg(b)], semantics, costs) matches CallOutcome::Charged(
            _,
            Ok(ValueV::Con(ConstantV::Boolean(r))),
        ) && r == (dictionary_before(a, b) || a == b),
        spec_call(DefaultFunction::EqualsByteString, seq![bytes_arg(a), bytes_arg(b)], semantics, costs) matches CallOutcome::Charged(
            _,
            Ok(ValueV::Con(ConstantV::Boolean(r))),
        ) && r == (a == b),
{
    lemma_bytes_lt_dictionary(a, b);
}

/// `lengthOfByteString b` is the number of bytes of `b`.
pub proof fn lemma_length_of_byte_string(b: Seq<u8>, semantics: BuiltinSemantics, costs: BuiltinCosts)
    ensures
        spec_call(DefaultFunction::LengthOfByteString, seq![bytes_arg(b)], semantics, costs) matches CallOutcome::Charged(
            _,
            Ok(ValueV::Con(ConstantV::Integer(n))),
        ) && n == b.len(),
{
}

} // verus!
