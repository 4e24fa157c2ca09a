//! Constants, their types, and structured data.

use vstd::prelude::*;

use crate::integer::Integer;

verus! {

/// The type of a constant.
#[derive(Debug, PartialEq, Eq)]
pub enum Type {
    Bool,
    Integer,
    String,
    ByteString,
    Unit,
    List(Box<Type>),
    Array(Box<Type>),
    Pair(Box<Type>, Box<Type>),
    Data,
    Bls12_381G1Element,
    Bls12_381G2Element,
    Bls12_381MlResult,
}

/// Structured data passed across the script boundary.
#[derive(Debug, PartialEq, Eq)]
pub enum PlutusData {
    /// A tagged constructor with positional fields.
    Constr { tag: u64, fields: Vec<PlutusData> },
    /// An association list.
    AssocList(Vec<(PlutusData, PlutusData)>),
    /// An integer.
    Integer(Integer),
    /// A byte string.
    ByteString(Vec<u8>),
    /// A list.
    List(Vec<PlutusData>),
}

/// A constant value.
#[derive(Debug, PartialEq, Eq)]
pub enum Constant {
    Integer(Integer),
    ByteString(Vec<u8>),
    String(String),
    Boolean(bool),
    Data(PlutusData),
    ProtoList(Type, Vec<Constant>),
    ProtoArray(Type, Vec<Constant>),
    ProtoPair(Type, Type, Box<Constant>, Box<Constant>),
    Unit,
}

impl Constant {
    /// The integer constant `i`.
    pub fn integer(i: Integer) -> (r: Constant)
        ensures
            r == Constant::Integer(i),
    {
        Constant::Integer(i)
    }

    /// The integer constant with value `i`.
    pub fn integer_from(i: i128) -> (r: Constant)
        ensures
            r matches Constant::Integer(n) && n@ == i && n.wf(),
    {
        Constant::Integer(Integer::from_i128(i))
    }

    /// The byte-string constant `bytes`.
    pub fn byte_string(bytes: Vec<u8>) -> (r: Constant)
        ensures
            r == Constant::ByteString(bytes),
    {
        Constant::ByteString(bytes)
    }

    /// The string constant `s`.
    pub fn string(s: String) -> (r: Constant)
        ensures
            r == Constant::String(s),
    {
        Constant::String(s)
    }

    /// The boolean constant `v`.
    pub fn bool(v: bool) -> (r: Constant)
        ensures
            r == Constant::Boolean(v),
    {
        Constant::Boolean(v)
    }

    /// The data constant `d`.
    pub fn data(d: PlutusData) -> (r: Constant)
        ensures
            r == Constant::Data(d),
    {
        Constant::Data(d)
    }

    /// The unit constant.
    pub fn unit() -> (r: Constant)
        ensures
            r == Constant::Unit,
    {
        Constant::Unit
    }

    /// The list constant of element type `inner` holding `values`.
    pub fn proto_list(inner: Type, values: Vec<Constant>) -> (r: Constant)
        ensures
            r == Constant::ProtoList(inner, values),
    {
        Constant::ProtoList(inner, values)
    }

    /// The array constant of element type `inner` holding `values`.
    pub fn proto_array(inner: Type, values: Vec<Constant>) -> (r: Constant)
        ensures
            r == Constant::ProtoArray(inner, values),
    {
        Constant::ProtoArray(inner, values)
    }

    /// The pair constant `(first_value, second_value)` of the given types.
    pub fn proto_pair(
        first_type: Type,
        second_type: Type,
        first_value: Constant,
        second_value: Constant,
    ) -> (r: Constant)
        ensures
            r == Constant::ProtoPair(
                first_type,
                second_type,
                Box::new(first_value),
                Box::new(second_value),
            ),
    {
        Constant::ProtoPair(first_type, second_type, Box::new(first_value), Box::new(second_value))
    }
}

/// The mathematical value of a [`PlutusData`]: integers are unbounded and
/// sequences replace vectors.
pub enum DataV {
    Constr(u64, Seq<DataV>),
    AssocList(Seq<(DataV, DataV)>),
    Integer(int),
    ByteString(Seq<u8>),
    List(Seq<DataV>),
}

/// The mathematical value of a [`Constant`].
pub enum ConstantV {
    Integer(int),
    ByteString(Seq<u8>),
    String(Seq<char>),
    Boolean(bool),
    Data(DataV),
    ProtoList(Type, Seq<ConstantV>),
    ProtoArray(Type, Seq<ConstantV>),
    ProtoPair(Type, Type, Box<ConstantV>, Box<ConstantV>),
    Unit,
}

/// The value of a data item.
pub open spec fn data_view(d: PlutusData) -> DataV
    decreases d,
{
    match d {
        PlutusData::Constr { tag, fields } => DataV::Constr(tag, datas_view(fields@)),
        PlutusData::AssocList(entries) => DataV::AssocList(pairs_view(entries@)),
        PlutusData::Integer(i) => DataV::Integer(i@),
        PlutusData::ByteString(b) => DataV::ByteString(b@),
        PlutusData::List(items) => DataV::List(datas_view(items@)),
    }
}

/// The values of a sequence of data items.
pub open spec fn datas_view(s: Seq<PlutusData>) -> Seq<DataV>
    decreases s,
{
    if s.len() == 0 {
        Seq::empty()
    } else {
        seq![data_view(s[0])] + datas_view(s.subrange(1, s.len() as int))
    }
}

/// The values of a sequence of key/value entries.
pub open spec fn pairs_view(s: Seq<(PlutusData, PlutusData)>) -> Seq<(DataV, DataV)>
    decreases s,
{
    if s.len() == 0 {
        Seq::empty()
    } else {
        seq![(data_view(s[0].0), data_view(s[0].1))] + pairs_view(s.subrange(1, s.len() as int))
    }
}

impl View for PlutusData {
    type V = DataV;

    open spec fn view(&self) -> DataV {
        data_view(*self)
    }
}

/// The value of a constant.
pub open spec fn constant_view(c: Constant) -> ConstantV
    decreases c,
{
    match c {
        Constant::Integer(i) => ConstantV::Integer(i@),
        Constant::ByteString(b) => ConstantV::ByteString(b@),
        Constant::String(s) => ConstantV::String(s@),
        Constant::Boolean(b) => ConstantV::Boolean(b),
        Constant::Data(d) => ConstantV::Data(data_view(d)),
        Constant::ProtoList(t, items) => ConstantV::ProtoList(t, constants_view(items@)),
        Constant::ProtoArray(t, items) => ConstantV::ProtoArray(t, constants_view(items@)),
        Constant::ProtoPair(t1, t2, a, b) => ConstantV::ProtoPair(
            t1,
            t2,
            Box::new(constant_view(*a)),
            Box::new(constant_view(*b)),
        ),
        Constant::Unit => ConstantV::Unit,
    }
}

/// The values of a sequence of constants.
pub open spec fn constants_view(s: Seq<Constant>) -> Seq<ConstantV>
    decreases s,
{
    if s.len() == 0 {
        Seq::empty()
    } else {
        seq![constant_view(s[0])] + constants_view(s.subrange(1, s.len() as int))
    }
}

impl View for Constant {
    type V = ConstantV;

    open spec fn view(&self) -> ConstantV {
        constant_view(*self)
    }
}

/// Appending one item appends its value.
pub proof fn lemma_datas_view_push(s: Seq<PlutusData>, x: PlutusData)
    ensures
        datas_view(s.push(x)) == datas_view(s).push(data_view(x)),
        datas_view(s.push(x)).len() == s.len() + 1,
    decreases s.len(),
{
    if s.len() == 0 {
        assert(s.push(x).subrange(1, 1) =~= Seq::<PlutusData>::empty());
        assert(datas_view(Seq::<PlutusData>::empty()) == Seq::<DataV>::empty());
        assert(seq![data_view(x)] + Seq::<DataV>::empty() =~= Seq::<DataV>::empty().push(data_view(x)));
    } else {
        lemma_datas_view_push(s.subrange(1, s.len() as int), x);
        assert(s.push(x).subrange(1, (s.len() + 1) as int) =~= s.subrange(1, s.len() as int).push(x));
        assert(seq![data_view(s[0])] + datas_view(s.subrange(1, s.len() as int)).push(data_view(x))
            =~= (seq![data_view(s[0])] + datas_view(s.subrange(1, s.len() as int))).push(data_view(x)));
    }
}

/// Appending one entry appends its value.
pub proof fn lemma_pairs_view_push(s: Seq<(PlutusData, PlutusData)>, x: (PlutusData, PlutusData))
    ensures
        pairs_view(s.push(x)) == pairs_view(s).push((data_view(x.0), data_view(x.1))),
        pairs_view(s.push(x)).len() == s.len() + 1,
    decreases s.len(),
{
    let xv = (data_view(x.0), data_view(x.1));
    if s.len() == 0 {
        assert(s.push(x).subrange(1, 1) =~= Seq::<(PlutusData, PlutusData)>::empty());
        assert(pairs_view(Seq::<(PlutusData, PlutusData)>::empty()) == Seq::<(DataV, DataV)>::empty());
        assert(seq![xv] + Seq::<(DataV, DataV)>::empty() =~= Seq::<(DataV, DataV)>::empty().push(xv));
    } else {
        let h = (data_view(s[0].0), data_view(s[0].1));
        lemma_pairs_view_push(s.subrange(1, s.len() as int), x);
        assert(s.push(x).subrange(1, (s.len() + 1) as int) =~= s.subrange(1, s.len() as int).push(x));
        assert(seq![h] + pairs_view(s.subrange(1, s.len() as int)).push(xv)
            =~= (seq![h] + pairs_view(s.subrange(1, s.len() as int))).push(xv));
    }
}

/// Appending one constant appends its value.
pub proof fn lemma_constants_view_push(s: Seq<Constant>, x: Constant)
    ensures
        constants_view(s.push(x)) == constants_view(s).push(constant_view(x)),
        constants_view(s.push(x)).len() == s.len() + 1,
    decreases s.len(),
{
    if s.len() == 0 {
        assert(s.push(x).subrange(1, 1) =~= Seq::<Constant>::empty());
        assert(constants_view(Seq::<Constant>::empty()) == Seq::<ConstantV>::empty());
        assert(seq![constant_view(x)] + Seq::<ConstantV>::empty() =~= Seq::<ConstantV>::empty().push(constant_view(x)));
    } else {
        lemma_constants_view_push(s.subrange(1, s.len() as int), x);
        assert(s.push(x).subrange(1, (s.len() + 1) as int) =~= s.subrange(1, s.len() as int).push(x));
        assert(seq![constant_view(s[0])] + constants_view(s.subrange(1, s.len() as int)).push(constant_view(x))
            =~= (seq![constant_view(s[0])] + constants_view(s.subrange(1, s.len() as int))).push(constant_view(x)));
    }
}

/// The view of a sequence has one value per item, each the item's value.
pub proof fn lemma_datas_view_index(s: Seq<PlutusData>)
    ensures
        datas_view(s).len() == s.len(),
        forall|i: int| 0 <= i < s.len() ==> #[trigger] datas_view(s)[i] == data_view(s[i]),
    decreases s.len(),
{
    if s.len() > 0 {
        lemma_datas_view_index(s.subrange(1, s.len() as int));
        assert forall|i: int| 0 <= i < s.len() implies #[trigger] datas_view(s)[i] == data_view(s[i]) by {
            if i > 0 {
                assert(s.subrange(1, s.len() as int)[i - 1] == s[i]);
            }
        }
    }
}

/// The view of a sequence of entries has one value per entry.
pub proof fn lemma_pairs_view_index(s: Seq<(PlutusData, PlutusData)>)
    ensures
        pairs_view(s).len() == s.len(),
        forall|i: int| 0 <= i < s.len() ==> #[trigger] pairs_view(s)[i] == (data_view(s[i].0), data_view(s[i].1)),
    decreases s.len(),
{
    if s.len() > 0 {
        lemma_pairs_view_index(s.subrange(1, s.len() as int));
        assert forall|i: int| 0 <= i < s.len() implies #[trigger] pairs_view(s)[i] == (data_view(s[i].0), data_view(s[i].1)) by {
            if i > 0 {
                assert(s.subrange(1, s.len() as int)[i - 1] == s[i]);
            }
        }
    }
}

/// The view of a sequence of constants has one value per item.
pub proof fn lemma_constants_view_index(s: Seq<Constant>)
    ensures
        constants_view(s).len() == s.len(),
        forall|i: int| 0 <= i < s.len() ==> #[trigger] constants_view(s)[i] == constant_view(s[i]),
    decreases s.len(),
{
    if s.len() > 0 {
        lemma_constants_view_index(s.subrange(1, s.len() as int));
        assert forall|i: int| 0 <= i < s.len() implies #[trigger] constants_view(s)[i] == constant_view(s[i]) by {
            if i > 0 {
                assert(s.subrange(1, s.len() as int)[i - 1] == s[i]);
            }
        }
    }
}

/// A copy of a type.
pub fn copy_type(t: &Type) -> (r: Type)
    ensures
        r == *t,
    decreases t,
{
    match t {
        Type::Bool => Type::Bool,
        Type::Integer => Type::Integer,
        Type::String => Type::String,
        Type::ByteString => Type::ByteString,
        Type::Unit => Type::Unit,
        Type::List(inner) => Type::List(Box::new(copy_type(inner))),
        Type::Array(inner) => Type::Array(Box::new(copy_type(inner))),
        Type::Pair(a, b) => Type::Pair(Box::new(copy_type(a)), Box::new(copy_type(b))),
        Type::Data => Type::Data,
        Type::Bls12_381G1Element => Type::Bls12_381G1Element,
        Type::Bls12_381G2Element => Type::Bls12_381G2Element,
        Type::Bls12_381MlResult => Type::Bls12_381MlResult,
    }
}

/// Whether two types are the same.
pub fn same_type(a: &Type, b: &Type) -> (r: bool)
    ensures
        r == (*a == *b),
    decreases a,
{
    match (a, b) {
        (Type::Bool, Type::Bool) => true,
        (Type::Integer, Type::Integer) => true,
        (Type::String, Type::String) => true,
        (Type::ByteString, Type::ByteString) => true,
        (Type::Unit, Type::Unit) => true,
        (Type::List(x), Type::List(y)) => same_type(x, y),
        (Type::Array(x), Type::Array(y)) => same_type(x, y),
        (Type::Pair(x1, x2), Type::Pair(y1, y2)) => same_type(x1, y1) && same_type(x2, y2),
        (Type::Data, Type::Data) => true,
        (Type::Bls12_381G1Element, Type::Bls12_381G1Element) => true,
        (Type::Bls12_381G2Element, Type::Bls12_381G2Element) => true,
        (Type::Bls12_381MlResult, Type::Bls12_381MlResult) => true,
        _ => false,
    }
}

/// A copy of a byte vector.
pub fn copy_bytes(b: &Vec<u8>) -> (r: Vec<u8>)
    ensures
        r@ == b@,
{
    let mut out: Vec<u8> = Vec::new();
    let mut i: usize = 0;
    while i < b.len()
        invariant
            i <= b.len(),
            out@ == b@.subrange(0, i as int),
        decreases b.len() - i,
    {
        out.push(b[i]);
        i += 1;
        assert(out@ =~= b@.subrange(0, i as int));
    }
    assert(b@.subrange(0, b.len() as int) =~= b@);
    out
}

/// A copy of an integer, digit by digit.
pub fn copy_integer(i: &Integer) -> (r: Integer)
    ensures
        r.negative == i.negative,
        r.digits@ == i.digits@,
        r@ == i@,
{
    let mut out: Vec<u32> = Vec::new();
    let mut k: usize = 0;
    while k < i.digits.len()
        invariant
            k <= i.digits.len(),
            out@ == i.digits@.subrange(0, k as int),
        decreases i.digits.len() - k,
    {
        out.push(i.digits[k]);
        k += 1;
        assert(out@ =~= i.digits@.subrange(0, k as int));
    }
    assert(i.digits@.subrange(0, i.digits.len() as int) =~= i.digits@);
    Integer { negative: i.negative, digits: out }
}

/// A copy of a data item.
pub fn copy_data(d: &PlutusData) -> (r: PlutusData)
    ensures
        r@ == d@,
    decreases d, 1nat,
{
    match d {
        PlutusData::Constr { tag, fields } => {
            let out = copy_datas(d, fields);
            PlutusData::Constr { tag: *tag, fields: out }
        },
        PlutusData::AssocList(entries) => {
            let mut out: Vec<(PlutusData, PlutusData)> = Vec::new();
            let mut i: usize = 0;
            while i < entries.len()
                invariant
                    i <= entries.len(),
                    *d == PlutusData::AssocList(*entries),
                    pairs_view(out@) == pairs_view(entries@.subrange(0, i as int)),
                decreases entries.len() - i,
            {
                proof {
                    assert(decreases_to!(*entries => entries@));
                    assert(decreases_to!(entries@ => entries@[i as int]));
                    assert(decreases_to!(*d => (*d)->AssocList_0));
                }
                let k = copy_data(&entries[i].0);
                let v = copy_data(&entries[i].1);
                proof {
                    lemma_pairs_view_push(out@, (k, v));
                    lemma_pairs_view_push(entries@.subrange(0, i as int), entries@[i as int]);
                    assert(entries@.subrange(0, i as int).push(entries@[i as int]) =~= entries@.subrange(0, i + 1));
                }
                out.push((k, v));
                i += 1;
            }
            assert(entries@.subrange(0, entries.len() as int) =~= entries@);
            PlutusData::AssocList(out)
        },
        PlutusData::Integer(i) => PlutusData::Integer(copy_integer(i)),
        PlutusData::ByteString(b) => PlutusData::ByteString(copy_bytes(b)),
        PlutusData::List(items) => {
            let out = copy_datas(d, items);
            PlutusData::List(out)
        },
    }
}

/// Copies the items of a constructor's fields or of a list.
fn copy_datas(parent: &PlutusData, items: &Vec<PlutusData>) -> (r: Vec<PlutusData>)
    requires
        *parent == (PlutusData::List(*items)) || (parent matches PlutusData::Constr { fields, .. } && fields == *items),
    ensures
        datas_view(r@) == datas_view(items@),
    decreases parent, 0nat,
{
    let mut out: Vec<PlutusData> = Vec::new();
    let mut i: usize = 0;
    while i < items.len()
        invariant
            i <= items.len(),
            *parent == (PlutusData::List(*items)) || (parent matches PlutusData::Constr { fields, .. } && fields == *items),
            datas_view(out@) == datas_view(items@.subrange(0, i as int)),
        decreases items.len() - i,
    {
        proof {
            assert(decreases_to!(*items => items@));
            assert(decreases_to!(items@ => items@[i as int]));
            if parent is List {
                assert(decreases_to!(*parent => (*parent)->List_0));
            } else {
                assert(decreases_to!(*parent => (*parent)->fields));
            }
        }
        let c = copy_data(&items[i]);
        proof {
            lemma_datas_view_push(out@, c);
            lemma_datas_view_push(items@.subrange(0, i as int), items@[i as int]);
            assert(items@.subrange(0, i as int).push(items@[i as int]) =~= items@.subrange(0, i + 1));
        }
        out.push(c);
        i += 1;
    }
    assert(items@.subrange(0, items.len() as int) =~= items@);
    out
}

/// A copy of a string.
pub fn copy_string(s: &String) -> (r: String)
    ensures
        r@ == s@,
{
    s.clone()
}

/// A copy of a constant.
pub fn copy_constant(c: &Constant) -> (r: Constant)
    ensures
        r@ == c@,
    decreases c, 1nat,
{
    match c {
        Constant::Integer(i) => Constant::Integer(copy_integer(i)),
        Constant::ByteString(b) => Constant::ByteString(copy_bytes(b)),
        Constant::String(s) => Constant::String(copy_string(s)),
        Constant::Boolean(b) => Constant::Boolean(*b),
        Constant::Data(d) => Constant::Data(copy_data(d)),
        Constant::ProtoList(t, items) => {
            let out = copy_constants(c, items);
            Constant::ProtoList(copy_type(t), out)
        },
        Constant::ProtoArray(t, items) => {
            let out = copy_constants(c, items);
            Constant::ProtoArray(copy_type(t), out)
        },
        Constant::ProtoPair(t1, t2, a, b) => {
            let a2 = copy_constant(a);
            let b2 = copy_constant(b);
            Constant::ProtoPair(copy_type(t1), copy_type(t2), Box::new(a2), Box::new(b2))
        },
        Constant::Unit => Constant::Unit,
    }
}

/// Copies the items of a list or array constant.
fn copy_constants(parent: &Constant, items: &Vec<Constant>) -> (r: Vec<Constant>)
    requires
        (parent matches Constant::ProtoList(_, v) && v == *items) || (parent matches Constant::ProtoArray(_, v) && v == *items),
    ensures
        constants_view(r@) == constants_view(items@),
    decreases parent, 0nat,
{
    let mut out: Vec<Constant> = Vec::new();
    let mut i: usize = 0;
    while i < items.len()
        invariant
            i <= items.len(),
            (parent matches Constant::ProtoList(_, v) && v == *items) || (parent matches Constant::ProtoArray(_, v) && v == *items),
            constants_view(out@) == constants_view(items@.subrange(0, i as int)),
        decreases items.len() - i,
    {
        proof {
            assert(decreases_to!(*items => items@));
            assert(decreases_to!(items@ => items@[i as int]));
            if parent is ProtoList {
                assert(decreases_to!(*parent => (*parent)->ProtoList_1));
            } else {
                assert(decreases_to!(*parent => (*parent)->ProtoArray_1));
            }
        }
        let c = copy_constant(&items[i]);
        proof {
            lemma_constants_view_push(out@, c);
            lemma_constants_view_push(items@.subrange(0, i as int), items@[i as int]);
            assert(items@.subrange(0, i as int).push(items@[i as int]) =~= items@.subrange(0, i + 1));
        }
        out.push(c);
        i += 1;
    }
    assert(items@.subrange(0, items.len() as int) =~= items@);
    out
}

} // verus!
