//! Partially applied built-ins and the computation of built-in calls.

use std::rc::Rc;

use vstd::prelude::*;
use vstd::string::StringSliceAdditionalSpecFns;
use vstd::utf8::{decode_utf8, encode_utf8, valid_utf8};

use crate::builtin::{spec_arity, spec_force_count, BuiltinSemantics, DefaultFunction};
use crate::constant::{
    constants_view, copy_bytes, copy_constant, copy_data, copy_integer, copy_type, data_view,
    datas_view, lemma_constants_view_index, lemma_constants_view_push, lemma_datas_view_index,
    lemma_datas_view_push, lemma_pairs_view_index, pairs_view, same_type, Constant, ConstantV,
    DataV, PlutusData, Type,
};
use crate::cost_model::builtin_costs::BuiltinCosts;
use crate::cost_model::ex_budget::ExBudget;
use crate::cost_model::value::{
    byte_string_ex_mem, constant_ex_mem, integer_ex_mem, pair_ex_mem, spec_integer_ex_mem,
    string_ex_mem, BOOL_EX_MEM, UNIT_EX_MEM,
};
use crate::integer::Integer;

use super::error::{MachineError, RuntimeError};
use super::semantics::{
    bitwise_bytes, as_bool, as_bytes, as_constant, as_data, as_integer, as_list, as_pair, as_string, as_unit,
    bytes_lt, bytes_size, call_supported, data_constants, list_datas, slice_bytes, slice_count, spec_call,
    spec_value_ex_mem, type_of, CallOutcome,
};
use super::value::{
    copy_values, lemma_values_view_index, lemma_values_view_push, rc_clone, values_view, Runtime,
    Value, ValueV,
};

verus! {

impl<'a> Runtime<'a> {
    /// The built-in `fun` with no forces and no arguments yet.
    pub fn new(fun: DefaultFunction) -> (r: Runtime<'a>)
        ensures
            r.fun == fun,
            r.forces == 0,
            r.args@.len() == 0,
    {
        Runtime { args: Vec::new(), fun, forces: 0 }
    }

    /// This built-in with one more force.
    pub fn force(&self) -> (r: Runtime<'a>)
        requires
            self.forces < usize::MAX,
        ensures
            r.fun == self.fun,
            r.forces == self.forces + 1,
            r.args@ == self.args@,
    {
        Runtime { args: copy_values(&self.args), fun: self.fun, forces: self.forces + 1 }
    }

    /// This built-in with one more argument.
    pub fn push(&self, arg: Rc<Value<'a>>) -> (r: Runtime<'a>)
        ensures
            r.fun == self.fun,
            r.forces == self.forces,
            r.args@ == self.args@.push(arg),
    {
        let mut args = copy_values(&self.args);
        args.push(arg);
        Runtime { args, fun: self.fun, forces: self.forces }
    }

    /// Whether the built-in still awaits a force.
    pub fn needs_force(&self) -> (r: bool)
        ensures
            r == (self.forces < spec_force_count(self.fun)),
    {
        self.forces < self.fun.force_count()
    }

    /// Whether the built-in still awaits an argument.
    pub fn is_arrow(&self) -> (r: bool)
        ensures
            r == (self.args@.len() < spec_arity(self.fun)),
    {
        self.args.len() < self.fun.arity()
    }

    /// Whether the built-in has all its arguments.
    pub fn is_ready(&self) -> (r: bool)
        ensures
            r == (self.args@.len() == spec_arity(self.fun)),
    {
        self.args.len() == self.fun.arity()
    }
}

/// The integer of a value.
pub fn unwrap_integer<'b, 'a>(v: &'b Value<'a>) -> (r: Result<&'b Integer, MachineError>)
    ensures
        match as_integer(v@) {
            Ok(i) => r matches Ok(x) && x@ == i,
            Err(e) => r == Err::<&Integer, MachineError>(e),
        },
{
    match v {
        Value::Con(c) => match &**c {
            Constant::Integer(i) => Ok(i),
            _ => Err(MachineError::Runtime(RuntimeError::TypeMismatch)),
        },
        _ => Err(MachineError::NotAConstant),
    }
}

/// The bytes of a value.
pub fn unwrap_byte_string<'b, 'a>(v: &'b Value<'a>) -> (r: Result<&'b Vec<u8>, MachineError>)
    ensures
        match as_bytes(v@) {
            Ok(b) => r matches Ok(x) && x@ == b,
            Err(e) => r == Err::<&Vec<u8>, MachineError>(e),
        },
{
    match v {
        Value::Con(c) => match &**c {
            Constant::ByteString(b) => Ok(b),
            _ => Err(MachineError::Runtime(RuntimeError::TypeMismatch)),
        },
        _ => Err(MachineError::NotAConstant),
    }
}

/// The string of a value.
pub fn unwrap_string<'b, 'a>(v: &'b Value<'a>) -> (r: Result<&'b String, MachineError>)
    ensures
        match as_string(v@) {
            Ok(s) => r matches Ok(x) && x@ == s,
            Err(e) => r == Err::<&String, MachineError>(e),
        },
{
    match v {
        Value::Con(c) => match &**c {
            Constant::String(s) => Ok(s),
            _ => Err(MachineError::Runtime(RuntimeError::TypeMismatch)),
        },
        _ => Err(MachineError::NotAConstant),
    }
}

/// The boolean of a value.
pub fn unwrap_bool<'a>(v: &Value<'a>) -> (r: Result<bool, MachineError>)
    ensures
        match as_bool(v@) {
            Ok(b) => r == Ok::<bool, MachineError>(b),
            Err(e) => r == Err::<bool, MachineError>(e),
        },
{
    match v {
        Value::Con(c) => match &**c {
            Constant::Boolean(b) => Ok(*b),
            _ => Err(MachineError::Runtime(RuntimeError::TypeMismatch)),
        },
        _ => Err(MachineError::NotAConstant),
    }
}

/// Checks that a value is the unit constant.
pub fn unwrap_unit<'a>(v: &Value<'a>) -> (r: Result<(), MachineError>)
    ensures
        match as_unit(v@) {
            Ok(_) => r is Ok,
            Err(e) => r == Err::<(), MachineError>(e),
        },
{
    match v {
        Value::Con(c) => match &**c {
            Constant::Unit => Ok(()),
            _ => Err(MachineError::Runtime(RuntimeError::TypeMismatch)),
        },
        _ => Err(MachineError::NotAConstant),
    }
}

/// The constant of a value.
pub fn unwrap_constant<'b, 'a>(v: &'b Value<'a>) -> (r: Result<&'b Constant, MachineError>)
    ensures
        match as_constant(v@) {
            Ok(c) => r matches Ok(x) && x@ == c,
            Err(e) => r == Err::<&Constant, MachineError>(e),
        },
{
    match v {
        Value::Con(c) => Ok(&**c),
        _ => Err(MachineError::NotAConstant),
    }
}

/// The type and items of a list value.
pub fn unwrap_list<'b, 'a>(v: &'b Value<'a>) -> (r: Result<(&'b Type, &'b Vec<Constant>), MachineError>)
    ensures
        match as_list(v@) {
            Ok((t, items)) => r matches Ok((x, y)) && *x == t && constants_view(y@) == items,
            Err(e) => r == Err::<(&Type, &Vec<Constant>), MachineError>(e),
        },
{
    match v {
        Value::Con(c) => match &**c {
            Constant::ProtoList(t, items) => Ok((t, items)),
            _ => Err(MachineError::Runtime(RuntimeError::ExpectedList)),
        },
        _ => Err(MachineError::NotAConstant),
    }
}

/// The components of a pair value.
pub fn unwrap_pair<'b, 'a>(v: &'b Value<'a>) -> (r: Result<(&'b Constant, &'b Constant), MachineError>)
    ensures
        match as_pair(v@) {
            Ok((a, b)) => r matches Ok((x, y)) && x@ == a && y@ == b,
            Err(e) => r == Err::<(&Constant, &Constant), MachineError>(e),
        },
{
    match v {
        Value::Con(c) => match &**c {
            Constant::ProtoPair(_, _, a, b) => Ok((&**a, &**b)),
            _ => Err(MachineError::Runtime(RuntimeError::ExpectedPair)),
        },
        _ => Err(MachineError::NotAConstant),
    }
}

/// The data item of a value.
pub fn unwrap_data<'b, 'a>(v: &'b Value<'a>) -> (r: Result<&'b PlutusData, MachineError>)
    ensures
        match as_data(v@) {
            Ok(d) => r matches Ok(x) && x@ == d,
            Err(e) => r == Err::<&PlutusData, MachineError>(e),
        },
{
    match v {
        Value::Con(c) => match &**c {
            Constant::Data(d) => Ok(d),
            _ => Err(MachineError::Runtime(RuntimeError::NotData)),
        },
        _ => Err(MachineError::NotAConstant),
    }
}

/// Whether two byte sequences are equal.
pub fn bytes_equal(a: &[u8], b: &[u8]) -> (r: bool)
    ensures
        r == (a@ == b@),
{
    if a.len() != b.len() {
        return false;
    }
    let mut k: usize = 0;
    while k < a.len()
        invariant
            k <= a@.len(),
            a@.len() == b@.len(),
            a@.subrange(0, k as int) == b@.subrange(0, k as int),
        decreases a@.len() - k,
    {
        if a[k] != b[k] {
            proof {
                assert(a@[k as int] != b@[k as int]);
            }
            return false;
        }
        k += 1;
        assert(a@.subrange(0, k as int) =~= b@.subrange(0, k as int)) by {
            assert(a@.subrange(0, k as int) =~= a@.subrange(0, k - 1).push(a@[k - 1]));
            assert(b@.subrange(0, k as int) =~= b@.subrange(0, k - 1).push(b@[k - 1]));
        }
    }
    assert(a@ =~= a@.subrange(0, a@.len() as int));
    assert(b@ =~= b@.subrange(0, b@.len() as int));
    true
}

/// Whether `a` comes strictly before `b` in lexicographic order.
pub fn bytes_less(a: &[u8], b: &[u8]) -> (r: bool)
    ensures
        r == bytes_lt(a@, b@),
{
    let mut k: usize = 0;
    proof {
        assert(a@.subrange(0, a@.len() as int) =~= a@);
        assert(b@.subrange(0, b@.len() as int) =~= b@);
    }
    loop
        invariant
            k <= a@.len(),
            k <= b@.len(),
            bytes_lt(a@, b@) == bytes_lt(a@.subrange(k as int, a@.len() as int), b@.subrange(k as int, b@.len() as int)),
        decreases a@.len() - k,
    {
        let ghost sa = a@.subrange(k as int, a@.len() as int);
        let ghost sb = b@.subrange(k as int, b@.len() as int);
        if k == b.len() {
            return false;
        }
        if k == a.len() {
            return true;
        }
        if a[k] != b[k] {
            proof {
                assert(sa[0] == a@[k as int]);
                assert(sb[0] == b@[k as int]);
            }
            return a[k] < b[k];
        }
        proof {
            assert(sa.subrange(1, sa.len() as int) =~= a@.subrange(k + 1, a@.len() as int));
            assert(sb.subrange(1, sb.len() as int) =~= b@.subrange(k + 1, b@.len() as int));
        }
        k += 1;
    }
}

/// Whether two data items are equal.
pub fn data_equal(a: &PlutusData, b: &PlutusData) -> (r: bool)
    ensures
        r == (a@ == b@),
    decreases a,
{
    match (a, b) {
        (PlutusData::Constr { tag: t1, fields: f1 }, PlutusData::Constr { tag: t2, fields: f2 }) => {
            if *t1 != *t2 {
                return false;
            }
            datas_equal(a, f1, f2)
        },
        (PlutusData::AssocList(e1), PlutusData::AssocList(e2)) => {
            proof {
                lemma_pairs_view_index(e1@);
                lemma_pairs_view_index(e2@);
            }
            if e1.len() != e2.len() {
                return false;
            }
            let mut k: usize = 0;
            while k < e1.len()
                invariant
                    k <= e1@.len(),
                    e1@.len() == e2@.len(),
                    *a == PlutusData::AssocList(*e1),
                    *b == PlutusData::AssocList(*e2),
                    pairs_view(e1@).len() == e1@.len(),
                    pairs_view(e2@).len() == e2@.len(),
                    forall|j: int| 0 <= j < e1@.len() ==> #[trigger] pairs_view(e1@)[j] == (e1@[j].0@, e1@[j].1@),
                    forall|j: int| 0 <= j < e2@.len() ==> #[trigger] pairs_view(e2@)[j] == (e2@[j].0@, e2@[j].1@),
                    pairs_view(e1@).subrange(0, k as int) == pairs_view(e2@).subrange(0, k as int),
                decreases e1@.len() - k,
            {
                proof {
                    assert(decreases_to!(*e1 => e1@));
                    assert(decreases_to!(e1@ => e1@[k as int]));
                    assert(decreases_to!(*a => (*a)->AssocList_0));
                }
                let same0 = data_equal(&e1[k].0, &e2[k].0);
                let same1 = data_equal(&e1[k].1, &e2[k].1);
                if !(same0 && same1) {
                    proof {
                        assert(pairs_view(e1@)[k as int] == (e1@[k as int].0@, e1@[k as int].1@));
                        assert(pairs_view(e2@)[k as int] == (e2@[k as int].0@, e2@[k as int].1@));
                        assert(pairs_view(e1@)[k as int] != pairs_view(e2@)[k as int]);
                        assert(a@ == DataV::AssocList(pairs_view(e1@)));
                        assert(b@ == DataV::AssocList(pairs_view(e2@)));
                        assert(pairs_view(e1@) != pairs_view(e2@));
                    }
                    return false;
                }
                proof {
                    assert(pairs_view(e1@).subrange(0, k + 1) =~= pairs_view(e1@).subrange(0, k as int).push(pairs_view(e1@)[k as int]));
                    assert(pairs_view(e2@).subrange(0, k + 1) =~= pairs_view(e2@).subrange(0, k as int).push(pairs_view(e2@)[k as int]));
                }
                k += 1;
            }
            proof {
                assert(pairs_view(e1@) =~= pairs_view(e1@).subrange(0, e1@.len() as int));
                assert(pairs_view(e2@) =~= pairs_view(e2@).subrange(0, e2@.len() as int));
            }
            true
        },
        (PlutusData::Integer(x), PlutusData::Integer(y)) => x.equals(y),
        (PlutusData::ByteString(x), PlutusData::ByteString(y)) => bytes_equal(x.as_slice(), y.as_slice()),
        (PlutusData::List(x), PlutusData::List(y)) => datas_equal(a, x, y),
        _ => false,
    }
}

/// Whether two sequences of data items (the children of `parent`) are
/// equal.
fn datas_equal(parent: &PlutusData, x: &Vec<PlutusData>, y: &Vec<PlutusData>) -> (r: bool)
    requires
        *parent == (PlutusData::List(*x)) || (parent matches PlutusData::Constr { fields, .. } && fields == *x),
    ensures
        r == (datas_view(x@) == datas_view(y@)),
    decreases parent, 0nat,
{
    proof {
        lemma_datas_view_index(x@);
        lemma_datas_view_index(y@);
    }
    if x.len() != y.len() {
        return false;
    }
    let mut k: usize = 0;
    while k < x.len()
        invariant
            k <= x@.len(),
            x@.len() == y@.len(),
            *parent == (PlutusData::List(*x)) || (parent matches PlutusData::Constr { fields, .. } && fields == *x),
            datas_view(x@).len() == x@.len(),
            datas_view(y@).len() == y@.len(),
            forall|j: int| 0 <= j < x@.len() ==> #[trigger] datas_view(x@)[j] == x@[j]@,
            forall|j: int| 0 <= j < y@.len() ==> #[trigger] datas_view(y@)[j] == y@[j]@,
            datas_view(x@).subrange(0, k as int) == datas_view(y@).subrange(0, k as int),
        decreases x@.len() - k,
    {
        proof {
            assert(decreases_to!(*x => x@));
            assert(decreases_to!(x@ => x@[k as int]));
            if parent is List {
                assert(decreases_to!(*parent => (*parent)->List_0));
            } else {
                assert(decreases_to!(*parent => (*parent)->fields));
            }
        }
        if !data_equal(&x[k], &y[k]) {
            proof {
                assert(datas_view(x@)[k as int] != datas_view(y@)[k as int]);
                assert(datas_view(x@) != datas_view(y@));
            }
            return false;
        }
        proof {
            assert(datas_view(x@).subrange(0, k + 1) =~= datas_view(x@).subrange(0, k as int).push(datas_view(x@)[k as int]));
            assert(datas_view(y@).subrange(0, k + 1) =~= datas_view(y@).subrange(0, k as int).push(datas_view(y@)[k as int]));
        }
        k += 1;
    }
    proof {
        assert(datas_view(x@) =~= datas_view(x@).subrange(0, x@.len() as int));
        assert(datas_view(y@) =~= datas_view(y@).subrange(0, y@.len() as int));
    }
    true
}

/// The type of a constant.
pub fn type_of_constant(c: &Constant) -> (r: Type)
    ensures
        r == type_of(c@),
{
    match c {
        Constant::Integer(_) => Type::Integer,
        Constant::ByteString(_) => Type::ByteString,
        Constant::String(_) => Type::String,
        Constant::Boolean(_) => Type::Bool,
        Constant::Data(_) => Type::Data,
        Constant::ProtoList(t, _) => Type::List(Box::new(copy_type(t))),
        Constant::ProtoArray(t, _) => Type::Array(Box::new(copy_type(t))),
        Constant::ProtoPair(t1, t2, _, _) => Type::Pair(Box::new(copy_type(t1)), Box::new(copy_type(t2))),
        Constant::Unit => Type::Unit,
    }
}

/// The data items of a list of data constants, if every item is one.
fn list_items_as_data(items: &Vec<Constant>) -> (r: Option<Vec<PlutusData>>)
    ensures
        match list_datas(constants_view(items@)) {
            Some(ds) => r matches Some(v) && datas_view(v@) == ds,
            None => r is None,
        },
{
    let ghost cv = constants_view(items@);
    proof {
        lemma_constants_view_index(items@);
        assert(cv.subrange(0, 0) =~= Seq::<ConstantV>::empty());
    }
    let mut out: Vec<PlutusData> = Vec::new();
    let mut k: usize = 0;
    while k < items.len()
        invariant
            k <= items@.len(),
            cv == constants_view(items@),
            cv.len() == items@.len(),
            forall|j: int| 0 <= j < items@.len() ==> #[trigger] cv[j] == items@[j]@,
            list_datas(cv.subrange(0, k as int)) == Some(datas_view(out@)),
        decreases items@.len() - k,
    {
        proof {
            assert(cv.subrange(0, k + 1).drop_last() =~= cv.subrange(0, k as int));
            assert(cv.subrange(0, k + 1).last() == cv[k as int]);
        }
        match &items[k] {
            Constant::Data(d) => {
                let c = copy_data(d);
                proof {
                    lemma_datas_view_push(out@, c);
                }
                out.push(c);
            },
            _ => {
                proof {
                    lemma_list_datas_prefix_none(cv, k + 1);
                }
                return None;
            },
        }
        k += 1;
    }
    proof {
        assert(cv.subrange(0, items@.len() as int) =~= cv);
    }
    Some(out)
}

/// A sequence with a non-data item up to `n` has no data items.
proof fn lemma_list_datas_prefix_none(s: Seq<ConstantV>, n: int)
    requires
        0 < n <= s.len(),
        list_datas(s.subrange(0, n)) is None,
    ensures
        list_datas(s) is None,
    decreases s.len() - n,
{
    if n < s.len() {
        assert(s.subrange(0, n + 1).drop_last() =~= s.subrange(0, n));
        lemma_list_datas_prefix_none(s, n + 1);
    } else {
        assert(s.subrange(0, n) =~= s);
    }
}

/// Data items as data constants.
fn data_as_constants(ds: &Vec<PlutusData>) -> (r: Vec<Constant>)
    ensures
        constants_view(r@) == data_constants(datas_view(ds@)),
{
    let ghost dv = datas_view(ds@);
    proof {
        lemma_datas_view_index(ds@);
    }
    let mut out: Vec<Constant> = Vec::new();
    let mut k: usize = 0;
    proof {
        assert(constants_view(out@) =~= data_constants(dv).subrange(0, 0));
    }
    while k < ds.len()
        invariant
            k <= ds@.len(),
            dv == datas_view(ds@),
            dv.len() == ds@.len(),
            forall|j: int| 0 <= j < ds@.len() ==> #[trigger] dv[j] == ds@[j]@,
            constants_view(out@) == data_constants(dv).subrange(0, k as int),
        decreases ds@.len() - k,
    {
        let c = Constant::Data(copy_data(&ds[k]));
        proof {
            lemma_constants_view_push(out@, c);
            assert(data_constants(dv).subrange(0, k + 1) =~= data_constants(dv).subrange(0, k as int).push(ConstantV::Data(dv[k as int])));
        }
        out.push(c);
        k += 1;
    }
    proof {
        assert(data_constants(dv).subrange(0, ds@.len() as int) =~= data_constants(dv));
    }
    out
}

/// The memory size of a value.
pub fn value_ex_mem<'a>(v: &Value<'a>) -> (r: i64)
    ensures
        r == spec_value_ex_mem(v@),
{
    match v {
        Value::Con(c) => constant_ex_mem(c),
        _ => 1,
    }
}

/// The skip or take count of `sliceByteString`.
fn slice_count_of(i: &Integer) -> (r: usize)
    ensures
        r == slice_count(i@),
{
    let zero = Integer::from_i128(0);
    if i.less_than(&zero) {
        0
    } else {
        match i.normalize().to_usize() {
            Some(n) => n,
            None => usize::MAX,
        }
    }
}

/// The bytes that skip `skip` and keep at most `take`.
fn slice_of(b: &Vec<u8>, skip: usize, take: usize) -> (r: Vec<u8>)
    ensures
        r@ == slice_bytes(b@, skip as nat, take as nat),
{
    let start = if skip < b.len() { skip } else { b.len() };
    let end = if take < b.len() - start { start + take } else { b.len() };
    let mut out: Vec<u8> = Vec::new();
    let mut k = start;
    while k < end
        invariant
            start <= k <= end <= b@.len(),
            out@ == b@.subrange(start as int, k as int),
        decreases end - k,
    {
        out.push(b[k]);
        k += 1;
        assert(out@ =~= b@.subrange(start as int, k as int));
    }
    out
}

/// `seq![x] + b`.
fn cons_byte(x: u8, b: &Vec<u8>) -> (r: Vec<u8>)
    ensures
        r@ == seq![x] + b@,
{
    let mut out: Vec<u8> = Vec::new();
    out.push(x);
    let mut k: usize = 0;
    while k < b.len()
        invariant
            k <= b@.len(),
            out@ == seq![x] + b@.subrange(0, k as int),
        decreases b@.len() - k,
    {
        out.push(b[k]);
        k += 1;
        assert(out@ =~= seq![x] + b@.subrange(0, k as int));
    }
    assert(b@.subrange(0, b@.len() as int) =~= b@);
    out
}

/// `a + b`.
fn concat_bytes(a: &Vec<u8>, b: &Vec<u8>) -> (r: Vec<u8>)
    ensures
        r@ == a@ + b@,
{
    let mut out = copy_bytes(a);
    let mut k: usize = 0;
    while k < b.len()
        invariant
            k <= b@.len(),
            out@ == a@ + b@.subrange(0, k as int),
        decreases b@.len() - k,
    {
        out.push(b[k]);
        k += 1;
        assert(out@ =~= a@ + b@.subrange(0, k as int));
    }
    assert(b@.subrange(0, b@.len() as int) =~= b@);
    out
}

/// What a built-in call charges and gives, as computed.
pub enum Outcome<'a> {
    /// It failed before charging anything.
    Failed(MachineError),
    /// It charged the budget, then gave this result.
    Charged(ExBudget, Result<Rc<Value<'a>>, MachineError>),
    /// It gave this result without charging.
    Uncharged(Result<Rc<Value<'a>>, MachineError>),
}

/// The view of a result.
pub open spec fn result_view<'a>(r: Result<Rc<Value<'a>>, MachineError>) -> Result<ValueV, MachineError> {
    match r {
        Ok(v) => Ok((*v)@),
        Err(e) => Err(e),
    }
}

/// The view of an outcome.
pub open spec fn outcome_view<'a>(o: Outcome<'a>) -> CallOutcome {
    match o {
        Outcome::Failed(e) => CallOutcome::Failed(e),
        Outcome::Charged(c, r) => CallOutcome::Charged(c, result_view(r)),
        Outcome::Uncharged(r) => CallOutcome::Uncharged(result_view(r)),
    }
}

/// The two integer arguments of a built-in.
fn two_integers<'b, 'a>(args: &'b Vec<Rc<Value<'a>>>) -> (r: Result<(&'b Integer, &'b Integer), MachineError>)
    requires
        args@.len() >= 2,
    ensures
        match as_integer((*args@[0])@) {
            Err(e) => r == Err::<(&Integer, &Integer), MachineError>(e),
            Ok(a) => match as_integer((*args@[1])@) {
                Err(e) => r == Err::<(&Integer, &Integer), MachineError>(e),
                Ok(b) => r matches Ok((x, y)) && x@ == a && y@ == b,
            },
        },
{
    let a = unwrap_integer(&*args[0])?;
    let b = unwrap_integer(&*args[1])?;
    Ok((a, b))
}

/// The two byte-string arguments of a built-in.
fn two_byte_strings<'b, 'a>(args: &'b Vec<Rc<Value<'a>>>) -> (r: Result<(&'b Vec<u8>, &'b Vec<u8>), MachineError>)
    requires
        args@.len() >= 2,
    ensures
        match as_bytes((*args@[0])@) {
            Err(e) => r == Err::<(&Vec<u8>, &Vec<u8>), MachineError>(e),
            Ok(a) => match as_bytes((*args@[1])@) {
                Err(e) => r == Err::<(&Vec<u8>, &Vec<u8>), MachineError>(e),
                Ok(b) => r matches Ok((x, y)) && x@ == a && y@ == b,
            },
        },
{
    let a = unwrap_byte_string(&*args[0])?;
    let b = unwrap_byte_string(&*args[1])?;
    Ok((a, b))
}

/// The cost of two integer arguments.
fn integers_cost(costs: &BuiltinCosts, fun: DefaultFunction, a: &Integer, b: &Integer) -> (r: ExBudget)
    requires
        costs.wf(),
    ensures
        r == costs.spec_cost(fun, super::semantics::int_sizes(a@, b@)),
{
    let sizes = vec![integer_ex_mem(a), integer_ex_mem(b)];
    proof {
        assert(sizes@ =~= super::semantics::int_sizes(a@, b@));
    }
    costs.cost(fun, sizes.as_slice())
}

/// The cost of two byte-string arguments.
fn byte_strings_cost(costs: &BuiltinCosts, fun: DefaultFunction, a: &Vec<u8>, b: &Vec<u8>) -> (r: ExBudget)
    requires
        costs.wf(),
    ensures
        r == costs.spec_cost(fun, seq![bytes_size(a@), bytes_size(b@)]),
{
    let sizes = vec![byte_string_ex_mem(a.as_slice()), byte_string_ex_mem(b.as_slice())];
    proof {
        assert(sizes@ =~= seq![bytes_size(a@), bytes_size(b@)]);
    }
    costs.cost(fun, sizes.as_slice())
}

/// The cost of one byte-string argument.
fn byte_string_cost(costs: &BuiltinCosts, fun: DefaultFunction, a: &Vec<u8>) -> (r: ExBudget)
    requires
        costs.wf(),
    ensures
        r == costs.spec_cost(fun, seq![bytes_size(a@)]),
{
    let sizes = vec![byte_string_ex_mem(a.as_slice())];
    proof {
        assert(sizes@ =~= seq![bytes_size(a@)]);
    }
    costs.cost(fun, sizes.as_slice())
}

/// Whether `f` is one of the integer built-ins.
pub open spec fn is_integer_builtin(f: DefaultFunction) -> bool {
    f == DefaultFunction::AddInteger || f == DefaultFunction::SubtractInteger
        || f == DefaultFunction::MultiplyInteger || f == DefaultFunction::DivideInteger
        || f == DefaultFunction::QuotientInteger || f == DefaultFunction::RemainderInteger
        || f == DefaultFunction::ModInteger || f == DefaultFunction::EqualsInteger
        || f == DefaultFunction::LessThanInteger || f == DefaultFunction::LessThanEqualsInteger
}

/// Calls an integer built-in.
fn call_integer<'a>(
    fun: DefaultFunction,
    args: &Vec<Rc<Value<'a>>>,
    semantics: BuiltinSemantics,
    costs: &BuiltinCosts,
) -> (r: Outcome<'a>)
    requires
        is_integer_builtin(fun),
        args@.len() == 2,
        costs.wf(),
    ensures
        outcome_view(r) == spec_call(fun, values_view(args@), semantics, *costs),
{
    proof {
        lemma_values_view_index(args@);
    }
    let (a, b) = match two_integers(args) {
        Ok(p) => p,
        Err(e) => {
            return Outcome::Failed(e);
        },
    };
    let cost = integers_cost(costs, fun, a, b);
    let result: Result<Rc<Value<'a>>, MachineError> = match fun {
        DefaultFunction::AddInteger => Ok(Value::integer(a.add(b))),
        DefaultFunction::SubtractInteger => Ok(Value::integer(a.subtract(b))),
        DefaultFunction::MultiplyInteger => Ok(Value::integer(a.multiply(b))),
        DefaultFunction::DivideInteger => match a.divide(b) {
            Some(q) => Ok(Value::integer(q)),
            None => Err(MachineError::Runtime(RuntimeError::DivisionByZero)),
        },
        DefaultFunction::QuotientInteger => match a.quotient(b) {
            Some(q) => Ok(Value::integer(q)),
            None => Err(MachineError::Runtime(RuntimeError::DivisionByZero)),
        },
        DefaultFunction::RemainderInteger => match a.remainder(b) {
            Some(q) => Ok(Value::integer(q)),
            None => Err(MachineError::Runtime(RuntimeError::DivisionByZero)),
        },
        DefaultFunction::ModInteger => match a.modulo(b) {
            Some(q) => Ok(Value::integer(q)),
            None => Err(MachineError::Runtime(RuntimeError::DivisionByZero)),
        },
        DefaultFunction::EqualsInteger => Ok(Value::bool(a.equals(b))),
        DefaultFunction::LessThanInteger => Ok(Value::bool(a.less_than(b))),
        _ => Ok(Value::bool(a.less_than_equals(b))),
    };
    Outcome::Charged(cost, result)
}

/// Whether `f` is one of the byte-string built-ins handled by
/// [`call_bytes`].
pub open spec fn is_bytes_builtin(f: DefaultFunction) -> bool {
    f == DefaultFunction::AppendByteString || f == DefaultFunction::EqualsByteString
        || f == DefaultFunction::LessThanByteString || f == DefaultFunction::LessThanEqualsByteString
        || f == DefaultFunction::ConsByteString || f == DefaultFunction::SliceByteString
        || f == DefaultFunction::LengthOfByteString || f == DefaultFunction::IndexByteString
        || f == DefaultFunction::Sha2_256 || f == DefaultFunction::Sha3_256
        || f == DefaultFunction::Blake2b_256 || f == DefaultFunction::Keccak_256
        || f == DefaultFunction::Blake2b_224 || f == DefaultFunction::VerifyEd25519Signature
}

/// Calls `bytes_binary`.
fn call_bytes_binary<'a>(
    fun: DefaultFunction,
    args: &Vec<Rc<Value<'a>>>,
    semantics: BuiltinSemantics,
    costs: &BuiltinCosts,
) -> (r: Outcome<'a>)
    requires
        (fun == DefaultFunction::AppendByteString || fun == DefaultFunction::EqualsByteString || fun == DefaultFunction::LessThanByteString || fun == DefaultFunction::LessThanEqualsByteString),
        args@.len() == spec_arity(fun),
        costs.wf(),
    ensures
        outcome_view(r) == spec_call(fun, values_view(args@), semantics, *costs),
{
    proof {
        lemma_values_view_index(args@);
    }
    let (a, b) = match two_byte_strings(args) {
        Ok(p) => p,
        Err(e) => {
            return Outcome::Failed(e);
        },
    };
    let cost = byte_strings_cost(costs, fun, a, b);
    let v = match fun {
        DefaultFunction::AppendByteString => Value::byte_string(concat_bytes(a, b)),
        DefaultFunction::EqualsByteString => Value::bool(bytes_equal(a.as_slice(), b.as_slice())),
        DefaultFunction::LessThanByteString => Value::bool(bytes_less(a.as_slice(), b.as_slice())),
        _ => {
            let lt = bytes_less(a.as_slice(), b.as_slice());
            let eq = bytes_equal(a.as_slice(), b.as_slice());
            Value::bool(lt || eq)
        },
    };
    Outcome::Charged(cost, Ok(v))
}

/// Calls `cons_byte_string`.
fn call_cons_byte_string<'a>(
    fun: DefaultFunction,
    args: &Vec<Rc<Value<'a>>>,
    semantics: BuiltinSemantics,
    costs: &BuiltinCosts,
) -> (r: Outcome<'a>)
    requires
        fun == DefaultFunction::ConsByteString,
        args@.len() == spec_arity(fun),
        costs.wf(),
    ensures
        outcome_view(r) == spec_call(fun, values_view(args@), semantics, *costs),
{
    proof {
        lemma_values_view_index(args@);
    }
    let a = match unwrap_integer(&*args[0]) {
        Ok(x) => x,
        Err(e) => {
            return Outcome::Failed(e);
        },
    };
    let b = match unwrap_byte_string(&*args[1]) {
        Ok(x) => x,
        Err(e) => {
            return Outcome::Failed(e);
        },
    };
    let sizes = vec![integer_ex_mem(a), byte_string_ex_mem(b.as_slice())];
    proof {
        assert(sizes@ =~= seq![crate::cost_model::value::spec_integer_ex_mem(a@) as i64, bytes_size(b@)]);
    }
    let cost = costs.cost(fun, sizes.as_slice());
    let result = match semantics {
        BuiltinSemantics::V1 => {
            let m = match a.modulo(&Integer::from_i128(256)) {
                Some(m) => m,
                None => {
                    proof {
                        assert(false);
                    }
                    Integer::from_i128(0)
                },
            };
            let byte: u8 = match m.to_u64() {
                Some(x) => x as u8,
                None => {
                    proof {
                        assert(false);
                    }
                    0
                },
            };
            Ok(Value::byte_string(cons_byte(byte, b)))
        },
        BuiltinSemantics::V2 => {
            let n = a.normalize();
            match n.to_u64() {
                Some(x) => {
                    if x > 255 {
                        Err(MachineError::Runtime(RuntimeError::ByteStringConsNotAByte))
                    } else {
                        Ok(Value::byte_string(cons_byte(x as u8, b)))
                    }
                },
                None => Err(MachineError::Runtime(RuntimeError::ByteStringConsNotAByte)),
            }
        },
    };
    Outcome::Charged(cost, result)
}

/// Calls `slice_byte_string`.
fn call_slice_byte_string<'a>(
    fun: DefaultFunction,
    args: &Vec<Rc<Value<'a>>>,
    semantics: BuiltinSemantics,
    costs: &BuiltinCosts,
) -> (r: Outcome<'a>)
    requires
        fun == DefaultFunction::SliceByteString,
        args@.len() == spec_arity(fun),
        costs.wf(),
    ensures
        outcome_view(r) == spec_call(fun, values_view(args@), semantics, *costs),
{
    proof {
        lemma_values_view_index(args@);
    }
    let a = match unwrap_integer(&*args[0]) {
        Ok(x) => x,
        Err(e) => {
            return Outcome::Failed(e);
        },
    };
    let n = match unwrap_integer(&*args[1]) {
        Ok(x) => x,
        Err(e) => {
            return Outcome::Failed(e);
        },
    };
    let b = match unwrap_byte_string(&*args[2]) {
        Ok(x) => x,
        Err(e) => {
            return Outcome::Failed(e);
        },
    };
    let sizes = vec![integer_ex_mem(a), integer_ex_mem(n), byte_string_ex_mem(b.as_slice())];
    proof {
        assert(sizes@ =~= seq![
            crate::cost_model::value::spec_integer_ex_mem(a@) as i64,
            crate::cost_model::value::spec_integer_ex_mem(n@) as i64,
            bytes_size(b@),
        ]);
    }
    let cost = costs.cost(fun, sizes.as_slice());
    let skip = slice_count_of(a);
    let take = slice_count_of(n);
    Outcome::Charged(cost, Ok(Value::byte_string(slice_of(b, skip, take))))
}

/// Calls `length_of_byte_string`.
fn call_length_of_byte_string<'a>(
    fun: DefaultFunction,
    args: &Vec<Rc<Value<'a>>>,
    semantics: BuiltinSemantics,
    costs: &BuiltinCosts,
) -> (r: Outcome<'a>)
    requires
        fun == DefaultFunction::LengthOfByteString,
        args@.len() == spec_arity(fun),
        costs.wf(),
    ensures
        outcome_view(r) == spec_call(fun, values_view(args@), semantics, *costs),
{
    proof {
        lemma_values_view_index(args@);
    }
    let b = match unwrap_byte_string(&*args[0]) {
        Ok(x) => x,
        Err(e) => {
            return Outcome::Failed(e);
        },
    };
    let cost = byte_string_cost(costs, fun, b);
    Outcome::Charged(cost, Ok(Value::integer(Integer::from_u64(b.len() as u64))))
}

/// Calls `index_byte_string`.
fn call_index_byte_string<'a>(
    fun: DefaultFunction,
    args: &Vec<Rc<Value<'a>>>,
    semantics: BuiltinSemantics,
    costs: &BuiltinCosts,
) -> (r: Outcome<'a>)
    requires
        fun == DefaultFunction::IndexByteString,
        args@.len() == spec_arity(fun),
        costs.wf(),
    ensures
        outcome_view(r) == spec_call(fun, values_view(args@), semantics, *costs),
{
    proof {
        lemma_values_view_index(args@);
    }
    let b = match unwrap_byte_string(&*args[0]) {
        Ok(x) => x,
        Err(e) => {
            return Outcome::Failed(e);
        },
    };
    let i = match unwrap_integer(&*args[1]) {
        Ok(x) => x,
        Err(e) => {
            return Outcome::Failed(e);
        },
    };
    let sizes = vec![byte_string_ex_mem(b.as_slice()), integer_ex_mem(i)];
    proof {
        assert(sizes@ =~= seq![bytes_size(b@), crate::cost_model::value::spec_integer_ex_mem(i@) as i64]);
    }
    let cost = costs.cost(fun, sizes.as_slice());
    let blen = b.len();
    let result = match i.normalize().to_usize() {
        Some(k) => {
            if k < blen {
                Ok(Value::integer(Integer::from_u64(b[k] as u64)))
            } else {
                Err(MachineError::Runtime(RuntimeError::ByteStringOutOfBounds))
            }
        },
        None => Err(MachineError::Runtime(RuntimeError::ByteStringOutOfBounds)),
    };
    Outcome::Charged(cost, result)
}

/// Calls `verify_ed25519`.
fn call_verify_ed25519<'a>(
    fun: DefaultFunction,
    args: &Vec<Rc<Value<'a>>>,
    semantics: BuiltinSemantics,
    costs: &BuiltinCosts,
) -> (r: Outcome<'a>)
    requires
        fun == DefaultFunction::VerifyEd25519Signature,
        args@.len() == spec_arity(fun),
        costs.wf(),
    ensures
        outcome_view(r) == spec_call(fun, values_view(args@), semantics, *costs),
{
    proof {
        lemma_values_view_index(args@);
    }
    let k = match unwrap_byte_string(&*args[0]) {
        Ok(x) => x,
        Err(e) => {
            return Outcome::Failed(e);
        },
    };
    let m = match unwrap_byte_string(&*args[1]) {
        Ok(x) => x,
        Err(e) => {
            return Outcome::Failed(e);
        },
    };
    let sig = match unwrap_byte_string(&*args[2]) {
        Ok(x) => x,
        Err(e) => {
            return Outcome::Failed(e);
        },
    };
    let sizes = vec![
        byte_string_ex_mem(k.as_slice()),
        byte_string_ex_mem(m.as_slice()),
        byte_string_ex_mem(sig.as_slice()),
    ];
    proof {
        assert(sizes@ =~= seq![bytes_size(k@), bytes_size(m@), bytes_size(sig@)]);
    }
    let cost = costs.cost(fun, sizes.as_slice());
    let result = if k.len() != 32 {
        Err(MachineError::Runtime(RuntimeError::UnexpectedEd25519PublicKeyLength))
    } else if sig.len() != 64 {
        Err(MachineError::Runtime(RuntimeError::UnexpectedEd25519SignatureLength))
    } else {
        Ok(Value::bool(super::crypto::ed25519_verify(m.as_slice(), k.as_slice(), sig.as_slice())))
    };
    Outcome::Charged(cost, result)
}

/// Calls `verifyEcdsaSecp256k1Signature` or
/// `verifySchnorrSecp256k1Signature`.
fn call_verify_secp256k1<'a>(
    fun: DefaultFunction,
    args: &Vec<Rc<Value<'a>>>,
    semantics: BuiltinSemantics,
    costs: &BuiltinCosts,
) -> (r: Outcome<'a>)
    requires
        fun == DefaultFunction::VerifyEcdsaSecp256k1Signature || fun == DefaultFunction::VerifySchnorrSecp256k1Signature,
        args@.len() == spec_arity(fun),
        costs.wf(),
    ensures
        outcome_view(r) == spec_call(fun, values_view(args@), semantics, *costs),
{
    proof {
        lemma_values_view_index(args@);
    }
    let k = match unwrap_byte_string(&*args[0]) {
        Ok(x) => x,
        Err(e) => {
            return Outcome::Failed(e);
        },
    };
    let m = match unwrap_byte_string(&*args[1]) {
        Ok(x) => x,
        Err(e) => {
            return Outcome::Failed(e);
        },
    };
    let sig = match unwrap_byte_string(&*args[2]) {
        Ok(x) => x,
        Err(e) => {
            return Outcome::Failed(e);
        },
    };
    let sizes = vec![
        byte_string_ex_mem(k.as_slice()),
        byte_string_ex_mem(m.as_slice()),
        byte_string_ex_mem(sig.as_slice()),
    ];
    proof {
        assert(sizes@ =~= seq![bytes_size(k@), bytes_size(m@), bytes_size(sig@)]);
    }
    let cost = costs.cost(fun, sizes.as_slice());
    let verdict = if fun == DefaultFunction::VerifyEcdsaSecp256k1Signature {
        super::crypto::verify_ecdsa_secp256k1(k.as_slice(), m.as_slice(), sig.as_slice())
    } else {
        super::crypto::verify_schnorr_secp256k1(k.as_slice(), m.as_slice(), sig.as_slice())
    };
    let result = match verdict {
        Some(valid) => Ok(Value::bool(valid)),
        None => Err(MachineError::Runtime(RuntimeError::Secp256k1)),
    };
    Outcome::Charged(cost, result)
}

/// Calls `hash`.
fn call_hash<'a>(
    fun: DefaultFunction,
    args: &Vec<Rc<Value<'a>>>,
    semantics: BuiltinSemantics,
    costs: &BuiltinCosts,
) -> (r: Outcome<'a>)
    requires
        (fun == DefaultFunction::Sha2_256 || fun == DefaultFunction::Sha3_256 || fun == DefaultFunction::Blake2b_256 || fun == DefaultFunction::Keccak_256 || fun == DefaultFunction::Blake2b_224),
        args@.len() == spec_arity(fun),
        costs.wf(),
    ensures
        outcome_view(r) == spec_call(fun, values_view(args@), semantics, *costs),
{
    proof {
        lemma_values_view_index(args@);
    }
    let b = match unwrap_byte_string(&*args[0]) {
        Ok(x) => x,
        Err(e) => {
            return Outcome::Failed(e);
        },
    };
    let cost = byte_string_cost(costs, fun, b);
    let digest = match fun {
        DefaultFunction::Sha2_256 => super::crypto::sha2_256(b.as_slice()),
        DefaultFunction::Sha3_256 => super::crypto::sha3_256(b.as_slice()),
        DefaultFunction::Blake2b_256 => super::crypto::blake2b_256(b.as_slice()),
        DefaultFunction::Keccak_256 => super::crypto::keccak_256(b.as_slice()),
        _ => super::crypto::blake2b_224(b.as_slice()),
    };
    Outcome::Charged(cost, Ok(Value::byte_string(digest)))
}

/// Calls a byte-string built-in.
fn call_bytes<'a>(
    fun: DefaultFunction,
    args: &Vec<Rc<Value<'a>>>,
    semantics: BuiltinSemantics,
    costs: &BuiltinCosts,
) -> (r: Outcome<'a>)
    requires
        is_bytes_builtin(fun),
        args@.len() == spec_arity(fun),
        costs.wf(),
    ensures
        outcome_view(r) == spec_call(fun, values_view(args@), semantics, *costs),
{
    match fun {
        DefaultFunction::AppendByteString | DefaultFunction::EqualsByteString
        | DefaultFunction::LessThanByteString | DefaultFunction::LessThanEqualsByteString => call_bytes_binary(fun, args, semantics, costs),
        DefaultFunction::ConsByteString => call_cons_byte_string(fun, args, semantics, costs),
        DefaultFunction::SliceByteString => call_slice_byte_string(fun, args, semantics, costs),
        DefaultFunction::LengthOfByteString => call_length_of_byte_string(fun, args, semantics, costs),
        DefaultFunction::IndexByteString => call_index_byte_string(fun, args, semantics, costs),
        DefaultFunction::VerifyEd25519Signature => call_verify_ed25519(fun, args, semantics, costs),
        _ => call_hash(fun, args, semantics, costs),
    }
}

/// Calls `equalsString`.
fn call_equals_string<'a>(
    fun: DefaultFunction,
    args: &Vec<Rc<Value<'a>>>,
    semantics: BuiltinSemantics,
    costs: &BuiltinCosts,
) -> (r: Outcome<'a>)
    requires
        fun == DefaultFunction::EqualsString,
        args@.len() == spec_arity(fun),
        costs.wf(),
    ensures
        outcome_view(r) == spec_call(fun, values_view(args@), semantics, *costs),
{
    proof {
        lemma_values_view_index(args@);
    }
    let a = match unwrap_string(&*args[0]) {
        Ok(x) => x,
        Err(e) => {
            return Outcome::Failed(e);
        },
    };
    let b = match unwrap_string(&*args[1]) {
        Ok(x) => x,
        Err(e) => {
            return Outcome::Failed(e);
        },
    };
    let sizes = vec![string_ex_mem(a.as_str()), string_ex_mem(b.as_str())];
    proof {
        assert(sizes@ =~= seq![
            crate::cost_model::saturating::clamp_i64(a@.len() as int),
            crate::cost_model::saturating::clamp_i64(b@.len() as int),
        ]);
    }
    let cost = costs.cost(fun, sizes.as_slice());
    let same = bytes_equal(a.as_str().as_bytes(), b.as_str().as_bytes());
    proof {
        vstd::utf8::encode_utf8_decode_utf8(a@);
        vstd::utf8::encode_utf8_decode_utf8(b@);
    }
    Outcome::Charged(cost, Ok(Value::bool(same)))
}

/// Calls `encodeUtf8`.
fn call_encode_utf8<'a>(
    fun: DefaultFunction,
    args: &Vec<Rc<Value<'a>>>,
    semantics: BuiltinSemantics,
    costs: &BuiltinCosts,
) -> (r: Outcome<'a>)
    requires
        fun == DefaultFunction::EncodeUtf8,
        args@.len() == spec_arity(fun),
        costs.wf(),
    ensures
        outcome_view(r) == spec_call(fun, values_view(args@), semantics, *costs),
{
    proof {
        lemma_values_view_index(args@);
    }
    let a = match unwrap_string(&*args[0]) {
        Ok(x) => x,
        Err(e) => {
            return Outcome::Failed(e);
        },
    };
    let sizes = vec![string_ex_mem(a.as_str())];
    proof {
        assert(sizes@ =~= seq![crate::cost_model::saturating::clamp_i64(a@.len() as int)]);
    }
    let cost = costs.cost(fun, sizes.as_slice());
    let bytes = a.as_str().as_bytes();
    let mut out: Vec<u8> = Vec::new();
    let mut k: usize = 0;
    while k < bytes.len()
        invariant
            k <= bytes@.len(),
            out@ == bytes@.subrange(0, k as int),
        decreases bytes@.len() - k,
    {
        out.push(bytes[k]);
        k += 1;
        assert(out@ =~= bytes@.subrange(0, k as int));
    }
    proof {
        assert(bytes@.subrange(0, bytes@.len() as int) =~= bytes@);
    }
    Outcome::Charged(cost, Ok(Value::byte_string(out)))
}

/// Calls `decodeUtf8`.
fn call_decode_utf8<'a>(
    fun: DefaultFunction,
    args: &Vec<Rc<Value<'a>>>,
    semantics: BuiltinSemantics,
    costs: &BuiltinCosts,
) -> (r: Outcome<'a>)
    requires
        fun == DefaultFunction::DecodeUtf8,
        args@.len() == spec_arity(fun),
        costs.wf(),
    ensures
        outcome_view(r) == spec_call(fun, values_view(args@), semantics, *costs),
{
    proof {
        lemma_values_view_index(args@);
    }
    let b = match unwrap_byte_string(&*args[0]) {
        Ok(x) => x,
        Err(e) => {
            return Outcome::Failed(e);
        },
    };
    let cost = byte_string_cost(costs, fun, b);
    let result = match crate::flat::decoder::str_from_utf8(b.as_slice()) {
        Some(text) => {
            let owned = text.to_owned();
            proof {
                vstd::utf8::encode_utf8_decode_utf8(text@);
            }
            Ok(Value::string(owned))
        },
        None => Err(MachineError::Runtime(RuntimeError::DecodeUtf8)),
    };
    Outcome::Charged(cost, result)
}

/// Calls `appendString`.
fn call_append_string<'a>(
    fun: DefaultFunction,
    args: &Vec<Rc<Value<'a>>>,
    semantics: BuiltinSemantics,
    costs: &BuiltinCosts,
) -> (r: Outcome<'a>)
    requires
        fun == DefaultFunction::AppendString,
        args@.len() == spec_arity(fun),
        costs.wf(),
    ensures
        outcome_view(r) == spec_call(fun, values_view(args@), semantics, *costs),
{
    proof {
        lemma_values_view_index(args@);
    }
    let a = match unwrap_string(&*args[0]) {
        Ok(x) => x,
        Err(e) => {
            return Outcome::Failed(e);
        },
    };
    let b = match unwrap_string(&*args[1]) {
        Ok(x) => x,
        Err(e) => {
            return Outcome::Failed(e);
        },
    };
    let sizes = vec![string_ex_mem(a.as_str()), string_ex_mem(b.as_str())];
    proof {
        assert(sizes@ =~= seq![
            crate::cost_model::saturating::clamp_i64(a@.len() as int),
            crate::cost_model::saturating::clamp_i64(b@.len() as int),
        ]);
    }
    let cost = costs.cost(fun, sizes.as_slice());
    let joined = crate::constant::copy_string(a).concat(b.as_str());
    Outcome::Charged(cost, Ok(Value::string(joined)))
}

/// Calls `trace`: the second argument, once the first is a string.
fn call_trace<'a>(
    fun: DefaultFunction,
    args: &Vec<Rc<Value<'a>>>,
    semantics: BuiltinSemantics,
    costs: &BuiltinCosts,
) -> (r: Outcome<'a>)
    requires
        fun == DefaultFunction::Trace,
        args@.len() == spec_arity(fun),
        costs.wf(),
    ensures
        outcome_view(r) == spec_call(fun, values_view(args@), semantics, *costs),
{
    proof {
        lemma_values_view_index(args@);
    }
    let a = match unwrap_string(&*args[0]) {
        Ok(x) => x,
        Err(e) => {
            return Outcome::Failed(e);
        },
    };
    let sizes = vec![string_ex_mem(a.as_str()), value_ex_mem(&*args[1])];
    proof {
        assert(sizes@ =~= seq![
            crate::cost_model::saturating::clamp_i64(a@.len() as int),
            spec_value_ex_mem((*args@[1])@),
        ]);
    }
    let cost = costs.cost(fun, sizes.as_slice());
    Outcome::Charged(cost, Ok(rc_clone(&args[1])))
}

/// Calls `ifThenElse`.
fn call_if_then_else<'a>(
    fun: DefaultFunction,
    args: &Vec<Rc<Value<'a>>>,
    semantics: BuiltinSemantics,
    costs: &BuiltinCosts,
) -> (r: Outcome<'a>)
    requires
        fun == DefaultFunction::IfThenElse,
        args@.len() == spec_arity(fun),
        costs.wf(),
    ensures
        outcome_view(r) == spec_call(fun, values_view(args@), semantics, *costs),
{
    proof {
        lemma_values_view_index(args@);
    }
    match unwrap_bool(&*args[0]) {
        Ok(b) => Outcome::Uncharged(Ok(if b { rc_clone(&args[1]) } else { rc_clone(&args[2]) })),
        Err(e) => Outcome::Failed(e),
    }
}

/// Calls `chooseUnit`.
fn call_choose_unit<'a>(
    fun: DefaultFunction,
    args: &Vec<Rc<Value<'a>>>,
    semantics: BuiltinSemantics,
    costs: &BuiltinCosts,
) -> (r: Outcome<'a>)
    requires
        fun == DefaultFunction::ChooseUnit,
        args@.len() == spec_arity(fun),
        costs.wf(),
    ensures
        outcome_view(r) == spec_call(fun, values_view(args@), semantics, *costs),
{
    proof {
        lemma_values_view_index(args@);
    }
    match unwrap_unit(&*args[0]) {
        Ok(_) => {},
        Err(e) => {
            return Outcome::Failed(e);
        },
    }
    let sizes = vec![UNIT_EX_MEM, value_ex_mem(&*args[1])];
    proof {
        assert(sizes@ =~= seq![UNIT_EX_MEM, spec_value_ex_mem((*args@[1])@)]);
    }
    let cost = costs.cost(fun, sizes.as_slice());
    Outcome::Charged(cost, Ok(rc_clone(&args[1])))
}

/// Calls `fstPair` or `sndPair`.
fn call_pair_projection<'a>(
    fun: DefaultFunction,
    args: &Vec<Rc<Value<'a>>>,
    semantics: BuiltinSemantics,
    costs: &BuiltinCosts,
) -> (r: Outcome<'a>)
    requires
        (fun == DefaultFunction::FstPair || fun == DefaultFunction::SndPair),
        args@.len() == spec_arity(fun),
        costs.wf(),
    ensures
        outcome_view(r) == spec_call(fun, values_view(args@), semantics, *costs),
{
    proof {
        lemma_values_view_index(args@);
    }
    let (a, b) = match unwrap_pair(&*args[0]) {
        Ok(p) => p,
        Err(e) => {
            return Outcome::Failed(e);
        },
    };
    let sizes = vec![pair_ex_mem(a, b)];
    proof {
        assert(sizes@ =~= seq![i64::MAX]);
    }
    let cost = costs.cost(fun, sizes.as_slice());
    let picked = if fun == DefaultFunction::FstPair { copy_constant(a) } else { copy_constant(b) };
    Outcome::Charged(cost, Ok(Value::con(Rc::new(picked))))
}

/// Calls a list built-in.
fn call_list<'a>(
    fun: DefaultFunction,
    args: &Vec<Rc<Value<'a>>>,
    semantics: BuiltinSemantics,
    costs: &BuiltinCosts,
) -> (r: Outcome<'a>)
    requires
        (fun == DefaultFunction::ChooseList || fun == DefaultFunction::MkCons || fun == DefaultFunction::HeadList || fun == DefaultFunction::TailList || fun == DefaultFunction::NullList),
        args@.len() == spec_arity(fun),
        costs.wf(),
    ensures
        outcome_view(r) == spec_call(fun, values_view(args@), semantics, *costs),
{
    proof {
        lemma_values_view_index(args@);
    }
    if fun == DefaultFunction::MkCons {
        let item = match unwrap_constant(&*args[0]) {
            Ok(x) => x,
            Err(e) => {
                return Outcome::Failed(e);
            },
        };
        let (t, items) = match unwrap_list(&*args[1]) {
            Ok(p) => p,
            Err(e) => {
                return Outcome::Failed(e);
            },
        };
        let it = type_of_constant(item);
        if !same_type(&it, t) {
            return Outcome::Failed(MachineError::Runtime(RuntimeError::MkConsTypeMismatch));
        }
        let mut out: Vec<Constant> = Vec::new();
        out.push(copy_constant(item));
        proof {
            lemma_constants_view_index(items@);
            lemma_constants_view_push(Seq::<Constant>::empty(), out@[0]);
            assert(Seq::<Constant>::empty().push(out@[0]) =~= out@);
            assert(constants_view(Seq::<Constant>::empty()) == Seq::<ConstantV>::empty());
            assert(constants_view(out@) =~= seq![item@] + constants_view(items@).subrange(0, 0));
        }
        let mut k: usize = 0;
        while k < items.len()
            invariant
                k <= items@.len(),
                constants_view(items@).len() == items@.len(),
                constants_view(out@) == seq![item@] + constants_view(items@).subrange(0, k as int),
            decreases items@.len() - k,
        {
            let c = copy_constant(&items[k]);
            proof {
                lemma_constants_view_index(items@);
                lemma_constants_view_push(out@, c);
                assert(seq![item@] + constants_view(items@).subrange(0, k + 1) =~= (seq![item@]
                    + constants_view(items@).subrange(0, k as int)).push(constants_view(items@)[k as int]));
            }
            out.push(c);
            k += 1;
        }
        proof {
            assert(constants_view(items@).subrange(0, items@.len() as int) =~= constants_view(items@));
        }
        return Outcome::Uncharged(Ok(Value::con(Rc::new(Constant::ProtoList(copy_type(t), out)))));
    }
    let (t, items) = match unwrap_list(&*args[0]) {
        Ok(p) => p,
        Err(e) => {
            return Outcome::Failed(e);
        },
    };
    proof {
        lemma_constants_view_index(items@);
    }
    match fun {
        DefaultFunction::ChooseList => Outcome::Uncharged(
            Ok(if items.len() == 0 { rc_clone(&args[1]) } else { rc_clone(&args[2]) }),
        ),
        DefaultFunction::NullList => Outcome::Uncharged(Ok(Value::bool(items.len() == 0))),
        DefaultFunction::HeadList => {
            if items.len() == 0 {
                Outcome::Failed(MachineError::Runtime(RuntimeError::EmptyList))
            } else {
                Outcome::Uncharged(Ok(Value::con(Rc::new(copy_constant(&items[0])))))
            }
        },
        _ => {
            if items.len() == 0 {
                Outcome::Failed(MachineError::Runtime(RuntimeError::EmptyList))
            } else {
                let mut out: Vec<Constant> = Vec::new();
                let mut k: usize = 1;
                proof {
                    assert(constants_view(out@) =~= constants_view(items@).subrange(1, 1));
                }
                while k < items.len()
                    invariant
                        1 <= k <= items@.len(),
                        constants_view(items@).len() == items@.len(),
                        constants_view(out@) == constants_view(items@).subrange(1, k as int),
                    decreases items@.len() - k,
                {
                    let c = copy_constant(&items[k]);
                    proof {
                        lemma_constants_view_index(items@);
                        lemma_constants_view_push(out@, c);
                        assert(constants_view(items@).subrange(1, k + 1) =~= constants_view(items@).subrange(1, k as int).push(constants_view(items@)[k as int]));
                    }
                    out.push(c);
                    k += 1;
                }
                Outcome::Uncharged(Ok(Value::con(Rc::new(Constant::ProtoList(copy_type(t), out)))))
            }
        },
    }
}

/// Calls `chooseData`.
fn call_choose_data<'a>(
    fun: DefaultFunction,
    args: &Vec<Rc<Value<'a>>>,
    semantics: BuiltinSemantics,
    costs: &BuiltinCosts,
) -> (r: Outcome<'a>)
    requires
        fun == DefaultFunction::ChooseData,
        args@.len() == spec_arity(fun),
        costs.wf(),
    ensures
        outcome_view(r) == spec_call(fun, values_view(args@), semantics, *costs),
{
    proof {
        lemma_values_view_index(args@);
    }
    let d = match unwrap_data(&*args[0]) {
        Ok(x) => x,
        Err(e) => {
            return Outcome::Failed(e);
        },
    };
    let k: usize = match d {
        PlutusData::Constr { .. } => 1,
        PlutusData::AssocList(_) => 2,
        PlutusData::List(_) => 3,
        PlutusData::Integer(_) => 4,
        PlutusData::ByteString(_) => 5,
    };
    Outcome::Uncharged(Ok(rc_clone(&args[k])))
}

/// Calls `constrData` or `listData`.
fn call_build_data<'a>(
    fun: DefaultFunction,
    args: &Vec<Rc<Value<'a>>>,
    semantics: BuiltinSemantics,
    costs: &BuiltinCosts,
) -> (r: Outcome<'a>)
    requires
        (fun == DefaultFunction::ConstrData || fun == DefaultFunction::ListData),
        args@.len() == spec_arity(fun),
        costs.wf(),
    ensures
        outcome_view(r) == spec_call(fun, values_view(args@), semantics, *costs),
{
    proof {
        lemma_values_view_index(args@);
    }
    let mut tag: u64 = 0;
    let mut tag_ok = true;
    let list_arg: usize = if fun == DefaultFunction::ConstrData { 1 } else { 0 };
    if fun == DefaultFunction::ConstrData {
        let t = match unwrap_integer(&*args[0]) {
            Ok(x) => x,
            Err(e) => {
                return Outcome::Failed(e);
            },
        };
        match t.normalize().to_u64() {
            Some(x) => {
                tag = x;
            },
            None => {
                tag_ok = false;
            },
        }
    }
    let (t, items) = match unwrap_list(&*args[list_arg]) {
        Ok(p) => p,
        Err(e) => {
            return Outcome::Failed(e);
        },
    };
    if !same_type(t, &Type::Data) || !tag_ok {
        return Outcome::Failed(MachineError::Runtime(RuntimeError::TypeMismatch));
    }
    match list_items_as_data(items) {
        Some(ds) => {
            let d = if fun == DefaultFunction::ConstrData {
                PlutusData::Constr { tag, fields: ds }
            } else {
                PlutusData::List(ds)
            };
            Outcome::Uncharged(Ok(Value::con(Rc::new(Constant::Data(d)))))
        },
        None => Outcome::Failed(MachineError::Runtime(RuntimeError::TypeMismatch)),
    }
}

/// Calls `iData` or `bData`.
fn call_wrap_data<'a>(
    fun: DefaultFunction,
    args: &Vec<Rc<Value<'a>>>,
    semantics: BuiltinSemantics,
    costs: &BuiltinCosts,
) -> (r: Outcome<'a>)
    requires
        (fun == DefaultFunction::IData || fun == DefaultFunction::BData),
        args@.len() == spec_arity(fun),
        costs.wf(),
    ensures
        outcome_view(r) == spec_call(fun, values_view(args@), semantics, *costs),
{
    proof {
        lemma_values_view_index(args@);
    }
    if fun == DefaultFunction::IData {
        match unwrap_integer(&*args[0]) {
            Ok(i) => Outcome::Uncharged(Ok(Value::con(Rc::new(Constant::Data(PlutusData::Integer(copy_integer(i))))))),
            Err(e) => Outcome::Failed(e),
        }
    } else {
        match unwrap_byte_string(&*args[0]) {
            Ok(b) => Outcome::Uncharged(Ok(Value::con(Rc::new(Constant::Data(PlutusData::ByteString(copy_bytes(b))))))),
            Err(e) => Outcome::Failed(e),
        }
    }
}

/// Calls a data destructor.
fn call_unwrap_data<'a>(
    fun: DefaultFunction,
    args: &Vec<Rc<Value<'a>>>,
    semantics: BuiltinSemantics,
    costs: &BuiltinCosts,
) -> (r: Outcome<'a>)
    requires
        (fun == DefaultFunction::UnConstrData || fun == DefaultFunction::UnListData || fun == DefaultFunction::UnIData || fun == DefaultFunction::UnBData),
        args@.len() == spec_arity(fun),
        costs.wf(),
    ensures
        outcome_view(r) == spec_call(fun, values_view(args@), semantics, *costs),
{
    proof {
        lemma_values_view_index(args@);
    }
    let d = match unwrap_data(&*args[0]) {
        Ok(x) => x,
        Err(e) => {
            return Outcome::Failed(e);
        },
    };
    match (fun, d) {
        (DefaultFunction::UnConstrData, PlutusData::Constr { tag, fields }) => {
            let items = data_as_constants(fields);
            proof {
                reveal_with_fuel(crate::constant::constant_view, 2);
            }
            let pair = Constant::ProtoPair(
                Type::Integer,
                Type::List(Box::new(Type::Data)),
                Box::new(Constant::Integer(Integer::from_u64(*tag))),
                Box::new(Constant::ProtoList(Type::Data, items)),
            );
            Outcome::Uncharged(Ok(Value::con(Rc::new(pair))))
        },
        (DefaultFunction::UnListData, PlutusData::List(ds)) => {
            let items = data_as_constants(ds);
            Outcome::Uncharged(Ok(Value::con(Rc::new(Constant::ProtoList(Type::Data, items)))))
        },
        (DefaultFunction::UnIData, PlutusData::Integer(i)) => Outcome::Uncharged(Ok(Value::integer(copy_integer(i)))),
        (DefaultFunction::UnBData, PlutusData::ByteString(b)) => Outcome::Uncharged(Ok(Value::byte_string(copy_bytes(b)))),
        _ => Outcome::Failed(MachineError::Runtime(RuntimeError::MalFormedData)),
    }
}

/// Calls `equalsData` or `mkPairData`.
fn call_two_data<'a>(
    fun: DefaultFunction,
    args: &Vec<Rc<Value<'a>>>,
    semantics: BuiltinSemantics,
    costs: &BuiltinCosts,
) -> (r: Outcome<'a>)
    requires
        (fun == DefaultFunction::EqualsData || fun == DefaultFunction::MkPairData),
        args@.len() == spec_arity(fun),
        costs.wf(),
    ensures
        outcome_view(r) == spec_call(fun, values_view(args@), semantics, *costs),
{
    proof {
        lemma_values_view_index(args@);
    }
    let a = match unwrap_data(&*args[0]) {
        Ok(x) => x,
        Err(e) => {
            return Outcome::Failed(e);
        },
    };
    let b = match unwrap_data(&*args[1]) {
        Ok(x) => x,
        Err(e) => {
            return Outcome::Failed(e);
        },
    };
    if fun == DefaultFunction::EqualsData {
        Outcome::Uncharged(Ok(Value::bool(data_equal(a, b))))
    } else {
        let ca = Constant::Data(copy_data(a));
        let cb = Constant::Data(copy_data(b));
        let pair = Constant::ProtoPair(Type::Data, Type::Data, Box::new(ca), Box::new(cb));
        proof {
            reveal_with_fuel(crate::constant::constant_view, 2);
        }
        Outcome::Uncharged(Ok(Value::con(Rc::new(pair))))
    }
}

/// Calls `mkNilData` or `mkNilPairData`.
fn call_make_nil<'a>(
    fun: DefaultFunction,
    args: &Vec<Rc<Value<'a>>>,
    semantics: BuiltinSemantics,
    costs: &BuiltinCosts,
) -> (r: Outcome<'a>)
    requires
        (fun == DefaultFunction::MkNilData || fun == DefaultFunction::MkNilPairData),
        args@.len() == spec_arity(fun),
        costs.wf(),
    ensures
        outcome_view(r) == spec_call(fun, values_view(args@), semantics, *costs),
{
    proof {
        lemma_values_view_index(args@);
    }
    match unwrap_unit(&*args[0]) {
        Ok(_) => {},
        Err(e) => {
            return Outcome::Failed(e);
        },
    }
    let t = if fun == DefaultFunction::MkNilData {
        Type::Data
    } else {
        Type::Pair(Box::new(Type::Data), Box::new(Type::Data))
    };
    let empty: Vec<Constant> = Vec::new();
    proof {
        assert(constants_view(empty@) =~= Seq::<ConstantV>::empty());
    }
    Outcome::Uncharged(Ok(Value::con(Rc::new(Constant::ProtoList(t, empty)))))
}

/// The bytes that the bitwise built-in `fun` makes of `a` and `b`.
fn bitwise_of(fun: DefaultFunction, pad: bool, a: &Vec<u8>, b: &Vec<u8>) -> (r: Vec<u8>)
    ensures
        r@ == bitwise_bytes(fun, pad, a@, b@),
{
    let n = if pad == (a.len() >= b.len()) {
        a.len()
    } else {
        b.len()
    };
    let mut out: Vec<u8> = Vec::new();
    let mut i: usize = 0;
    while i < n
        invariant
            n == (if pad == (a@.len() >= b@.len()) { a@.len() } else { b@.len() }),
            i <= n,
            out@ =~= bitwise_bytes(fun, pad, a@, b@).take(i as int),
        decreases n - i,
    {
        let x = if i < a.len() && i < b.len() {
            match fun {
                DefaultFunction::AndByteString => a[i] & b[i],
                DefaultFunction::OrByteString => a[i] | b[i],
                _ => a[i] ^ b[i],
            }
        } else if i < a.len() {
            a[i]
        } else {
            b[i]
        };
        out.push(x);
        proof {
            assert(bitwise_bytes(fun, pad, a@, b@).take(i + 1) =~= bitwise_bytes(fun, pad, a@, b@).take(
                i as int,
            ).push(x));
        }
        i = i + 1;
    }
    proof {
        assert(bitwise_bytes(fun, pad, a@, b@).take(n as int) =~= bitwise_bytes(fun, pad, a@, b@));
    }
    out
}

/// Calls `andByteString`, `orByteString` or `xorByteString`.
fn call_bitwise<'a>(
    fun: DefaultFunction,
    args: &Vec<Rc<Value<'a>>>,
    semantics: BuiltinSemantics,
    costs: &BuiltinCosts,
) -> (r: Outcome<'a>)
    requires
        fun == DefaultFunction::AndByteString || fun == DefaultFunction::OrByteString
            || fun == DefaultFunction::XorByteString,
        args@.len() == spec_arity(fun),
        costs.wf(),
    ensures
        outcome_view(r) == spec_call(fun, values_view(args@), semantics, *costs),
{
    proof {
        lemma_values_view_index(args@);
    }
    let pad = match unwrap_bool(&*args[0]) {
        Ok(x) => x,
        Err(e) => {
            return Outcome::Failed(e);
        },
    };
    let a = match unwrap_byte_string(&*args[1]) {
        Ok(x) => x,
        Err(e) => {
            return Outcome::Failed(e);
        },
    };
    let b = match unwrap_byte_string(&*args[2]) {
        Ok(x) => x,
        Err(e) => {
            return Outcome::Failed(e);
        },
    };
    let sizes = vec![BOOL_EX_MEM, byte_string_ex_mem(a.as_slice()), byte_string_ex_mem(b.as_slice())];
    proof {
        assert(sizes@ =~= seq![BOOL_EX_MEM, bytes_size(a@), bytes_size(b@)]);
    }
    let cost = costs.cost(fun, sizes.as_slice());
    Outcome::Charged(cost, Ok(Value::byte_string(bitwise_of(fun, pad, a, b))))
}

/// Calls `expModInteger`.
fn call_exp_mod<'a>(
    fun: DefaultFunction,
    args: &Vec<Rc<Value<'a>>>,
    semantics: BuiltinSemantics,
    costs: &BuiltinCosts,
) -> (r: Outcome<'a>)
    requires
        fun == DefaultFunction::ExpModInteger,
        args@.len() == spec_arity(fun),
        costs.wf(),
    ensures
        outcome_view(r) == spec_call(fun, values_view(args@), semantics, *costs),
{
    proof {
        lemma_values_view_index(args@);
    }
    let b = match unwrap_integer(&*args[0]) {
        Ok(x) => x,
        Err(e) => {
            return Outcome::Failed(e);
        },
    };
    let e = match unwrap_integer(&*args[1]) {
        Ok(x) => x,
        Err(err) => {
            return Outcome::Failed(err);
        },
    };
    let m = match unwrap_integer(&*args[2]) {
        Ok(x) => x,
        Err(err) => {
            return Outcome::Failed(err);
        },
    };
    let sizes = vec![integer_ex_mem(b), integer_ex_mem(e), integer_ex_mem(m)];
    proof {
        assert(sizes@ =~= seq![
            spec_integer_ex_mem(b@) as i64,
            spec_integer_ex_mem(e@) as i64,
            spec_integer_ex_mem(m@) as i64,
        ]);
    }
    let cost = costs.cost(fun, sizes.as_slice());
    let en = e.normalize();
    let mn = m.normalize();
    let result = match b.exp_mod(&en, &mn) {
        Some(v) => Ok(Value::integer(v)),
        None => {
            let zero = Integer::from_u64(0);
            if mn.less_than_equals(&zero) {
                Err(MachineError::Runtime(RuntimeError::ExpModIntegerInvalidModulus))
            } else {
                Err(MachineError::Runtime(RuntimeError::ExpModIntegerNotInvertible))
            }
        },
    };
    Outcome::Charged(cost, result)
}

/// Computes a call of the supported built-in `fun` on all its arguments.
pub fn call_builtin<'a>(
    fun: DefaultFunction,
    args: &Vec<Rc<Value<'a>>>,
    semantics: BuiltinSemantics,
    costs: &BuiltinCosts,
) -> (r: Outcome<'a>)
    requires
        call_supported(fun),
        args@.len() == spec_arity(fun),
        costs.wf(),
    ensures
        outcome_view(r) == spec_call(fun, values_view(args@), semantics, *costs),
{
    match fun {
        DefaultFunction::AddInteger | DefaultFunction::SubtractInteger
        | DefaultFunction::MultiplyInteger | DefaultFunction::DivideInteger
        | DefaultFunction::QuotientInteger | DefaultFunction::RemainderInteger
        | DefaultFunction::ModInteger | DefaultFunction::EqualsInteger
        | DefaultFunction::LessThanInteger | DefaultFunction::LessThanEqualsInteger => call_integer(fun, args, semantics, costs),
        DefaultFunction::AppendByteString | DefaultFunction::EqualsByteString
        | DefaultFunction::LessThanByteString | DefaultFunction::LessThanEqualsByteString
        | DefaultFunction::ConsByteString | DefaultFunction::SliceByteString
        | DefaultFunction::LengthOfByteString | DefaultFunction::IndexByteString
        | DefaultFunction::Sha2_256 | DefaultFunction::Sha3_256
        | DefaultFunction::Blake2b_256 | DefaultFunction::Keccak_256
        | DefaultFunction::Blake2b_224 | DefaultFunction::VerifyEd25519Signature => call_bytes(fun, args, semantics, costs),
        DefaultFunction::EqualsString => call_equals_string(fun, args, semantics, costs),
        DefaultFunction::EncodeUtf8 => call_encode_utf8(fun, args, semantics, costs),
        DefaultFunction::DecodeUtf8 => call_decode_utf8(fun, args, semantics, costs),
        DefaultFunction::VerifyEcdsaSecp256k1Signature | DefaultFunction::VerifySchnorrSecp256k1Signature => call_verify_secp256k1(fun, args, semantics, costs),
        DefaultFunction::AppendString => call_append_string(fun, args, semantics, costs),
        DefaultFunction::Trace => call_trace(fun, args, semantics, costs),
        DefaultFunction::IfThenElse => call_if_then_else(fun, args, semantics, costs),
        DefaultFunction::ChooseUnit => call_choose_unit(fun, args, semantics, costs),
        DefaultFunction::FstPair | DefaultFunction::SndPair => call_pair_projection(fun, args, semantics, costs),
        DefaultFunction::ChooseList | DefaultFunction::MkCons | DefaultFunction::HeadList
        | DefaultFunction::TailList | DefaultFunction::NullList => call_list(fun, args, semantics, costs),
        DefaultFunction::ChooseData => call_choose_data(fun, args, semantics, costs),
        DefaultFunction::ConstrData | DefaultFunction::ListData => call_build_data(fun, args, semantics, costs),
        DefaultFunction::IData | DefaultFunction::BData => call_wrap_data(fun, args, semantics, costs),
        DefaultFunction::UnConstrData | DefaultFunction::UnListData | DefaultFunction::UnIData
        | DefaultFunction::UnBData => call_unwrap_data(fun, args, semantics, costs),
        DefaultFunction::EqualsData | DefaultFunction::MkPairData => call_two_data(fun, args, semantics, costs),
        DefaultFunction::AndByteString | DefaultFunction::OrByteString
        | DefaultFunction::XorByteString => call_bitwise(fun, args, semantics, costs),
        DefaultFunction::ExpModInteger => call_exp_mod(fun, args, semantics, costs),
        DefaultFunction::ComplementByteString | DefaultFunction::CountSetBits
        | DefaultFunction::FindFirstSetBit | DefaultFunction::Ripemd_160 => super::calls::call_bytes_unary(fun, args, semantics, costs),
        DefaultFunction::ReadBit | DefaultFunction::ShiftByteString
        | DefaultFunction::RotateByteString => super::calls::call_bytes_int(fun, args, semantics, costs),
        DefaultFunction::WriteBits => super::calls::call_write_bits(fun, args, semantics, costs),
        DefaultFunction::ReplicateByte => super::calls::call_replicate(fun, args, semantics, costs),
        DefaultFunction::IntegerToByteString => super::calls::call_integer_to_bytes(fun, args, semantics, costs),
        DefaultFunction::ByteStringToInteger => super::calls::call_bytes_to_integer(fun, args, semantics, costs),
        DefaultFunction::MapData | DefaultFunction::UnMapData | DefaultFunction::DropList
        | DefaultFunction::LengthOfArray | DefaultFunction::ListToArray
        | DefaultFunction::IndexArray => super::calls::call_collection(fun, args, semantics, costs),
        _ => call_make_nil(fun, args, semantics, costs),
    }
}

/// Whether evaluation implements the built-in `f`.
pub fn is_supported(f: DefaultFunction) -> (r: bool)
    ensures
        r == call_supported(f),
{
    match f {
        DefaultFunction::AddInteger => true,
        DefaultFunction::SubtractInteger => true,
        DefaultFunction::MultiplyInteger => true,
        DefaultFunction::DivideInteger => true,
        DefaultFunction::QuotientInteger => true,
        DefaultFunction::RemainderInteger => true,
        DefaultFunction::ModInteger => true,
        DefaultFunction::EqualsInteger => true,
        DefaultFunction::LessThanInteger => true,
        DefaultFunction::LessThanEqualsInteger => true,
        DefaultFunction::AppendByteString => true,
        DefaultFunction::ConsByteString => true,
        DefaultFunction::SliceByteString => true,
        DefaultFunction::LengthOfByteString => true,
        DefaultFunction::IndexByteString => true,
        DefaultFunction::EqualsByteString => true,
        DefaultFunction::LessThanByteString => true,
        DefaultFunction::LessThanEqualsByteString => true,
        DefaultFunction::Sha2_256 => true,
        DefaultFunction::Sha3_256 => true,
        DefaultFunction::Blake2b_256 => true,
        DefaultFunction::Keccak_256 => true,
        DefaultFunction::Blake2b_224 => true,
        DefaultFunction::VerifyEd25519Signature => true,
        DefaultFunction::EqualsString => true,
        DefaultFunction::EncodeUtf8 => true,
        DefaultFunction::DecodeUtf8 => true,
        DefaultFunction::AppendString => true,
        DefaultFunction::Trace => true,
        DefaultFunction::VerifyEcdsaSecp256k1Signature => true,
        DefaultFunction::VerifySchnorrSecp256k1Signature => true,
        DefaultFunction::IfThenElse => true,
        DefaultFunction::ChooseUnit => true,
        DefaultFunction::FstPair => true,
        DefaultFunction::SndPair => true,
        DefaultFunction::ChooseList => true,
        DefaultFunction::MkCons => true,
        DefaultFunction::HeadList => true,
        DefaultFunction::TailList => true,
        DefaultFunction::NullList => true,
        DefaultFunction::ChooseData => true,
        DefaultFunction::ConstrData => true,
        DefaultFunction::ListData => true,
        DefaultFunction::IData => true,
        DefaultFunction::BData => true,
        DefaultFunction::UnConstrData => true,
        DefaultFunction::UnListData => true,
        DefaultFunction::UnIData => true,
        DefaultFunction::UnBData => true,
        DefaultFunction::EqualsData => true,
        DefaultFunction::MkPairData => true,
        DefaultFunction::MkNilData => true,
        DefaultFunction::MkNilPairData => true,
        DefaultFunction::AndByteString => true,
        DefaultFunction::OrByteString => true,
        DefaultFunction::XorByteString => true,
        DefaultFunction::ExpModInteger => true,
        DefaultFunction::ComplementByteString => true,
        DefaultFunction::ReadBit => true,
        DefaultFunction::WriteBits => true,
        DefaultFunction::ReplicateByte => true,
        DefaultFunction::ShiftByteString => true,
        DefaultFunction::RotateByteString => true,
        DefaultFunction::CountSetBits => true,
        DefaultFunction::FindFirstSetBit => true,
        DefaultFunction::IntegerToByteString => true,
        DefaultFunction::ByteStringToInteger => true,
        DefaultFunction::Ripemd_160 => true,
        DefaultFunction::MapData => true,
        DefaultFunction::UnMapData => true,
        DefaultFunction::DropList => true,
        DefaultFunction::LengthOfArray => true,
        DefaultFunction::ListToArray => true,
        DefaultFunction::IndexArray => true,
        _ => false,
    }
}

} // verus!
