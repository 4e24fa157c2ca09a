//! Terms of Untyped Plutus Core and their builders.

use vstd::prelude::*;

use crate::binder::DeBruijn;
use crate::builtin::DefaultFunction;
use crate::constant::{
    constant_view, copy_constant, Constant, ConstantV, PlutusData,
};
use crate::integer::Integer;

verus! {

/// A term whose variables are De Bruijn indices.
#[derive(Debug, PartialEq, Eq)]
pub enum Term {
    /// A variable occurrence.
    Var(DeBruijn),
    /// A lambda abstraction binding one variable.
    Lambda { parameter: DeBruijn, body: Box<Term> },
    /// Function application.
    Apply { function: Box<Term>, argument: Box<Term> },
    /// A delayed term.
    Delay(Box<Term>),
    /// Forces a delayed term or a polymorphic built-in.
    Force(Box<Term>),
    /// Branches on a constructor value (or on a constant).
    Case { constr: Box<Term>, branches: Vec<Term> },
    /// A tagged tuple of values.
    Constr { tag: usize, fields: Vec<Term> },
    /// A constant.
    Constant(Constant),
    /// A built-in function.
    Builtin(DefaultFunction),
    /// The error term.
    Error,
}

/// The mathematical value of a [`Term`].
pub enum TermV {
    Var(nat),
    Lambda(nat, Box<TermV>),
    Apply(Box<TermV>, Box<TermV>),
    Delay(Box<TermV>),
    Force(Box<TermV>),
    Case(Box<TermV>, Seq<TermV>),
    Constr(nat, Seq<TermV>),
    Constant(ConstantV),
    Builtin(DefaultFunction),
    Error,
}

/// The value of a term.
pub open spec fn term_view(t: Term) -> TermV
    decreases t,
{
    match t {
        Term::Var(i) => TermV::Var(i.0 as nat),
        Term::Lambda { parameter, body } => TermV::Lambda(parameter.0 as nat, Box::new(term_view(*body))),
        Term::Apply { function, argument } => TermV::Apply(
            Box::new(term_view(*function)),
            Box::new(term_view(*argument)),
        ),
        Term::Delay(b) => TermV::Delay(Box::new(term_view(*b))),
        Term::Force(b) => TermV::Force(Box::new(term_view(*b))),
        Term::Case { constr, branches } => TermV::Case(
            Box::new(term_view(*constr)),
            terms_view(branches@),
        ),
        Term::Constr { tag, fields } => TermV::Constr(tag as nat, terms_view(fields@)),
        Term::Constant(c) => TermV::Constant(constant_view(c)),
        Term::Builtin(f) => TermV::Builtin(f),
        Term::Error => TermV::Error,
    }
}

/// The values of a sequence of terms.
pub open spec fn terms_view(s: Seq<Term>) -> Seq<TermV>
    decreases s,
{
    if s.len() == 0 {
        Seq::empty()
    } else {
        seq![term_view(s[0])] + terms_view(s.subrange(1, s.len() as int))
    }
}

impl View for Term {
    type V = TermV;

    open spec fn view(&self) -> TermV {
        term_view(*self)
    }
}

/// Appending one term appends its value.
pub proof fn lemma_terms_view_push(s: Seq<Term>, x: Term)
    ensures
        terms_view(s.push(x)) == terms_view(s).push(term_view(x)),
    decreases s.len(),
{
    if s.len() == 0 {
        assert(s.push(x).subrange(1, 1) =~= Seq::<Term>::empty());
        assert(terms_view(Seq::<Term>::empty()) == Seq::<TermV>::empty());
        assert(seq![term_view(x)] + Seq::<TermV>::empty() =~= Seq::<TermV>::empty().push(term_view(x)));
    } else {
        lemma_terms_view_push(s.subrange(1, s.len() as int), x);
        assert(s.push(x).subrange(1, (s.len() + 1) as int) =~= s.subrange(1, s.len() as int).push(x));
        assert(seq![term_view(s[0])] + terms_view(s.subrange(1, s.len() as int)).push(term_view(x))
            =~= (seq![term_view(s[0])] + terms_view(s.subrange(1, s.len() as int))).push(term_view(x)));
    }
}

/// Dropping the first term drops the first value.
pub proof fn lemma_terms_view_drop_first(s: Seq<Term>)
    requires
        s.len() > 0,
    ensures
        terms_view(s.subrange(1, s.len() as int)) == terms_view(s).subrange(1, s.len() as int),
        terms_view(s.subrange(1, s.len() as int)) == terms_view(s).drop_first(),
        terms_view(s)[0] == term_view(s[0]),
{
    lemma_terms_view_index(s);
    assert(terms_view(s).subrange(1, s.len() as int) =~= terms_view(s.subrange(1, s.len() as int)));
    assert(terms_view(s).drop_first() =~= terms_view(s.subrange(1, s.len() as int)));
}

/// The view of a sequence of terms has one value per term.
pub proof fn lemma_terms_view_index(s: Seq<Term>)
    ensures
        terms_view(s).len() == s.len(),
        forall|i: int| 0 <= i < s.len() ==> #[trigger] terms_view(s)[i] == term_view(s[i]),
    decreases s.len(),
{
    if s.len() > 0 {
        lemma_terms_view_index(s.subrange(1, s.len() as int));
        assert forall|i: int| 0 <= i < s.len() implies #[trigger] terms_view(s)[i] == term_view(s[i]) by {
            if i > 0 {
                assert(s.subrange(1, s.len() as int)[i - 1] == s[i]);
            }
        }
    }
}

/// A copy of a term.
pub fn copy_term(t: &Term) -> (r: Term)
    ensures
        r@ == t@,
    decreases t, 1nat,
{
    match t {
        Term::Var(i) => Term::Var(*i),
        Term::Lambda { parameter, body } => Term::Lambda {
            parameter: *parameter,
            body: Box::new(copy_term(body)),
        },
        Term::Apply { function, argument } => {
            let f = copy_term(function);
            let a = copy_term(argument);
            Term::Apply { function: Box::new(f), argument: Box::new(a) }
        },
        Term::Delay(b) => Term::Delay(Box::new(copy_term(b))),
        Term::Force(b) => Term::Force(Box::new(copy_term(b))),
        Term::Case { constr, branches } => {
            let c = copy_term(constr);
            let bs = copy_terms(t, branches);
            Term::Case { constr: Box::new(c), branches: bs }
        },
        Term::Constr { tag, fields } => {
            let fs = copy_terms(t, fields);
            Term::Constr { tag: *tag, fields: fs }
        },
        Term::Constant(c) => Term::Constant(copy_constant(c)),
        Term::Builtin(f) => Term::Builtin(*f),
        Term::Error => Term::Error,
    }
}

/// Copies the branches of a case or the fields of a constructor.
fn copy_terms(parent: &Term, items: &Vec<Term>) -> (r: Vec<Term>)
    requires
        (parent matches Term::Case { branches, .. } && branches == *items) || (parent matches Term::Constr { fields, .. } && fields == *items),
    ensures
        terms_view(r@) == terms_view(items@),
    decreases parent, 0nat,
{
    let mut out: Vec<Term> = Vec::new();
    let mut i: usize = 0;
    while i < items.len()
        invariant
            i <= items.len(),
            (parent matches Term::Case { branches, .. } && branches == *items) || (parent matches Term::Constr { fields, .. } && fields == *items),
            terms_view(out@) == terms_view(items@.subrange(0, i as int)),
        decreases items.len() - i,
    {
        proof {
            assert(decreases_to!(*items => items@));
            assert(decreases_to!(items@ => items@[i as int]));
            if parent is Case {
                assert(decreases_to!(*parent => (*parent)->branches));
            } else {
                assert(decreases_to!(*parent => (*parent)->fields));
            }
        }
        let c = copy_term(&items[i]);
        proof {
            lemma_terms_view_push(out@, c);
            lemma_terms_view_push(items@.subrange(0, i as int), items@[i as int]);
            assert(items@.subrange(0, i as int).push(items@[i as int]) =~= items@.subrange(0, i + 1));
        }
        out.push(c);
        i += 1;
    }
    assert(items@.subrange(0, items.len() as int) =~= items@);
    out
}

impl Term {
    /// The variable with index `i`.
    pub fn var(i: DeBruijn) -> (r: Term)
        ensures
            r@ == TermV::Var(i.0 as nat),
    {
        Term::Var(i)
    }

    /// The application of `self` to `argument`.
    pub fn apply(self, argument: Term) -> (r: Term)
        ensures
            r@ == TermV::Apply(Box::new(self@), Box::new(argument@)),
    {
        Term::Apply { function: Box::new(self), argument: Box::new(argument) }
    }

    /// A lambda binding `parameter` whose body is `self`.
    pub fn lambda(self, parameter: DeBruijn) -> (r: Term)
        ensures
            r@ == TermV::Lambda(parameter.0 as nat, Box::new(self@)),
    {
        Term::Lambda { parameter, body: Box::new(self) }
    }

    /// `self` forced.
    pub fn force(self) -> (r: Term)
        ensures
            r@ == TermV::Force(Box::new(self@)),
    {
        Term::Force(Box::new(self))
    }

    /// `self` delayed.
    pub fn delay(self) -> (r: Term)
        ensures
            r@ == TermV::Delay(Box::new(self@)),
    {
        Term::Delay(Box::new(self))
    }

    /// The constant term `constant`.
    pub fn constant(constant: Constant) -> (r: Term)
        ensures
            r@ == TermV::Constant(constant@),
    {
        Term::Constant(constant)
    }

    /// The constructor with `tag` and `fields`.
    pub fn constr(tag: usize, fields: Vec<Term>) -> (r: Term)
        ensures
            r@ == TermV::Constr(tag as nat, terms_view(fields@)),
    {
        Term::Constr { tag, fields }
    }

    /// The case analysis of `constr` over `branches`.
    pub fn case(constr: Term, branches: Vec<Term>) -> (r: Term)
        ensures
            r@ == TermV::Case(Box::new(constr@), terms_view(branches@)),
    {
        Term::Case { constr: Box::new(constr), branches }
    }

    /// The integer constant `i`.
    pub fn integer(i: Integer) -> (r: Term)
        ensures
            r@ == TermV::Constant(ConstantV::Integer(i@)),
    {
        Term::Constant(Constant::Integer(i))
    }

    /// The integer constant with value `i`.
    pub fn integer_from(i: i128) -> (r: Term)
        ensures
            r@ == TermV::Constant(ConstantV::Integer(i as int)),
    {
        Term::Constant(Constant::Integer(Integer::from_i128(i)))
    }

    /// The byte-string constant `bytes`.
    pub fn byte_string(bytes: Vec<u8>) -> (r: Term)
        ensures
            r@ == TermV::Constant(ConstantV::ByteString(bytes@)),
    {
        Term::Constant(Constant::ByteString(bytes))
    }

    /// The string constant `s`.
    pub fn string(s: String) -> (r: Term)
        ensures
            r@ == TermV::Constant(ConstantV::String(s@)),
    {
        Term::Constant(Constant::String(s))
    }

    /// The boolean constant `v`.
    pub fn bool(v: bool) -> (r: Term)
        ensures
            r@ == TermV::Constant(ConstantV::Boolean(v)),
    {
        Term::Constant(Constant::Boolean(v))
    }

    /// The data constant `d`.
    pub fn data(d: PlutusData) -> (r: Term)
        ensures
            r@ == TermV::Constant(ConstantV::Data(d@)),
    {
        Term::Constant(Constant::Data(d))
    }

    /// The data constant holding the byte string `bytes`.
    pub fn data_byte_string(bytes: Vec<u8>) -> (r: Term)
        ensures
            r@ == TermV::Constant(ConstantV::Data(crate::constant::DataV::ByteString(bytes@))),
    {
        Term::Constant(Constant::Data(PlutusData::ByteString(bytes)))
    }

    /// The data constant holding the integer `i`.
    pub fn data_integer(i: Integer) -> (r: Term)
        ensures
            r@ == TermV::Constant(ConstantV::Data(crate::constant::DataV::Integer(i@))),
    {
        Term::Constant(Constant::Data(PlutusData::Integer(i)))
    }

    /// The data constant holding the integer with value `i`.
    pub fn data_integer_from(i: i128) -> (r: Term)
        ensures
            r@ == TermV::Constant(ConstantV::Data(crate::constant::DataV::Integer(i as int))),
    {
        Term::Constant(Constant::Data(PlutusData::Integer(Integer::from_i128(i))))
    }

    /// The unit constant.
    pub fn unit() -> (r: Term)
        ensures
            r@ == TermV::Constant(ConstantV::Unit),
    {
        Term::Constant(Constant::Unit)
    }

    /// The built-in function `fun`.
    pub fn builtin(fun: DefaultFunction) -> (r: Term)
        ensures
            r@ == TermV::Builtin(fun),
    {
        Term::Builtin(fun)
    }

    /// The error term.
    pub fn error() -> (r: Term)
        ensures
            r@ == TermV::Error,
    {
        Term::Error
    }

    /// The built-in `AddInteger`.
    pub fn add_integer() -> (r: Term)
        ensures
            r@ == TermV::Builtin(DefaultFunction::AddInteger),
    {
        Term::Builtin(DefaultFunction::AddInteger)
    }

    /// The built-in `MultiplyInteger`.
    pub fn multiply_integer() -> (r: Term)
        ensures
            r@ == TermV::Builtin(DefaultFunction::MultiplyInteger),
    {
        Term::Builtin(DefaultFunction::MultiplyInteger)
    }

    /// The built-in `DivideInteger`.
    pub fn divide_integer() -> (r: Term)
        ensures
            r@ == TermV::Builtin(DefaultFunction::DivideInteger),
    {
        Term::Builtin(DefaultFunction::DivideInteger)
    }

    /// The built-in `QuotientInteger`.
    pub fn quotient_integer() -> (r: Term)
        ensures
            r@ == TermV::Builtin(DefaultFunction::QuotientInteger),
    {
        Term::Builtin(DefaultFunction::QuotientInteger)
    }

    /// The built-in `RemainderInteger`.
    pub fn remainder_integer() -> (r: Term)
        ensures
            r@ == TermV::Builtin(DefaultFunction::RemainderInteger),
    {
        Term::Builtin(DefaultFunction::RemainderInteger)
    }

    /// The built-in `ModInteger`.
    pub fn mod_integer() -> (r: Term)
        ensures
            r@ == TermV::Builtin(DefaultFunction::ModInteger),
    {
        Term::Builtin(DefaultFunction::ModInteger)
    }

    /// The built-in `SubtractInteger`.
    pub fn subtract_integer() -> (r: Term)
        ensures
            r@ == TermV::Builtin(DefaultFunction::SubtractInteger),
    {
        Term::Builtin(DefaultFunction::SubtractInteger)
    }

    /// The built-in `EqualsInteger`.
    pub fn equals_integer() -> (r: Term)
        ensures
            r@ == TermV::Builtin(DefaultFunction::EqualsInteger),
    {
        Term::Builtin(DefaultFunction::EqualsInteger)
    }

    /// The built-in `LessThanEqualsInteger`.
    pub fn less_than_equals_integer() -> (r: Term)
        ensures
            r@ == TermV::Builtin(DefaultFunction::LessThanEqualsInteger),
    {
        Term::Builtin(DefaultFunction::LessThanEqualsInteger)
    }

    /// The built-in `LessThanInteger`.
    pub fn less_than_integer() -> (r: Term)
        ensures
            r@ == TermV::Builtin(DefaultFunction::LessThanInteger),
    {
        Term::Builtin(DefaultFunction::LessThanInteger)
    }

    /// The built-in `IfThenElse`.
    pub fn if_then_else() -> (r: Term)
        ensures
            r@ == TermV::Builtin(DefaultFunction::IfThenElse),
    {
        Term::Builtin(DefaultFunction::IfThenElse)
    }

    /// The built-in `AppendByteString`.
    pub fn append_byte_string() -> (r: Term)
        ensures
            r@ == TermV::Builtin(DefaultFunction::AppendByteString),
    {
        Term::Builtin(DefaultFunction::AppendByteString)
    }

    /// The built-in `EqualsByteString`.
    pub fn equals_byte_string() -> (r: Term)
        ensures
            r@ == TermV::Builtin(DefaultFunction::EqualsByteString),
    {
        Term::Builtin(DefaultFunction::EqualsByteString)
    }

    /// The built-in `ConsByteString`.
    pub fn cons_byte_string() -> (r: Term)
        ensures
            r@ == TermV::Builtin(DefaultFunction::ConsByteString),
    {
        Term::Builtin(DefaultFunction::ConsByteString)
    }

    /// The built-in `SliceByteString`.
    pub fn slice_byte_string() -> (r: Term)
        ensures
            r@ == TermV::Builtin(DefaultFunction::SliceByteString),
    {
        Term::Builtin(DefaultFunction::SliceByteString)
    }

    /// The built-in `LengthOfByteString`.
    pub fn length_of_byte_string() -> (r: Term)
        ensures
            r@ == TermV::Builtin(DefaultFunction::LengthOfByteString),
    {
        Term::Builtin(DefaultFunction::LengthOfByteString)
    }

    /// The built-in `IndexByteString`.
    pub fn index_byte_string() -> (r: Term)
        ensures
            r@ == TermV::Builtin(DefaultFunction::IndexByteString),
    {
        Term::Builtin(DefaultFunction::IndexByteString)
    }

    /// The built-in `LessThanByteString`.
    pub fn less_than_byte_string() -> (r: Term)
        ensures
            r@ == TermV::Builtin(DefaultFunction::LessThanByteString),
    {
        Term::Builtin(DefaultFunction::LessThanByteString)
    }

    /// The built-in `LessThanEqualsByteString`.
    pub fn less_than_equals_byte_string() -> (r: Term)
        ensures
            r@ == TermV::Builtin(DefaultFunction::LessThanEqualsByteString),
    {
        Term::Builtin(DefaultFunction::LessThanEqualsByteString)
    }

    /// The built-in `Sha2_256`.
    pub fn sha2_256() -> (r: Term)
        ensures
            r@ == TermV::Builtin(DefaultFunction::Sha2_256),
    {
        Term::Builtin(DefaultFunction::Sha2_256)
    }

    /// The built-in `Sha3_256`.
    pub fn sha3_256() -> (r: Term)
        ensures
            r@ == TermV::Builtin(DefaultFunction::Sha3_256),
    {
        Term::Builtin(DefaultFunction::Sha3_256)
    }

    /// The built-in `Blake2b_256`.
    pub fn blake2b_256() -> (r: Term)
        ensures
            r@ == TermV::Builtin(DefaultFunction::Blake2b_256),
    {
        Term::Builtin(DefaultFunction::Blake2b_256)
    }

    /// The built-in `Keccak_256`.
    pub fn keccak_256() -> (r: Term)
        ensures
            r@ == TermV::Builtin(DefaultFunction::Keccak_256),
    {
        Term::Builtin(DefaultFunction::Keccak_256)
    }

    /// The built-in `Blake2b_224`.
    pub fn blake2b_224() -> (r: Term)
        ensures
            r@ == TermV::Builtin(DefaultFunction::Blake2b_224),
    {
        Term::Builtin(DefaultFunction::Blake2b_224)
    }

    /// The built-in `VerifyEd25519Signature`.
    pub fn verify_ed25519_signature() -> (r: Term)
        ensures
            r@ == TermV::Builtin(DefaultFunction::VerifyEd25519Signature),
    {
        Term::Builtin(DefaultFunction::VerifyEd25519Signature)
    }

    /// The built-in `VerifyEcdsaSecp256k1Signature`.
    pub fn verify_ecdsa_secp256k1_signature() -> (r: Term)
        ensures
            r@ == TermV::Builtin(DefaultFunction::VerifyEcdsaSecp256k1Signature),
    {
        Term::Builtin(DefaultFunction::VerifyEcdsaSecp256k1Signature)
    }

    /// The built-in `VerifySchnorrSecp256k1Signature`.
    pub fn verify_schnorr_secp256k1_signature() -> (r: Term)
        ensures
            r@ == TermV::Builtin(DefaultFunction::VerifySchnorrSecp256k1Signature),
    {
        Term::Builtin(DefaultFunction::VerifySchnorrSecp256k1Signature)
    }

    /// The built-in `AppendString`.
    pub fn append_string() -> (r: Term)
        ensures
            r@ == TermV::Builtin(DefaultFunction::AppendString),
    {
        Term::Builtin(DefaultFunction::AppendString)
    }

    /// The built-in `EqualsString`.
    pub fn equals_string() -> (r: Term)
        ensures
            r@ == TermV::Builtin(DefaultFunction::EqualsString),
    {
        Term::Builtin(DefaultFunction::EqualsString)
    }

    /// The built-in `EncodeUtf8`.
    pub fn encode_utf8() -> (r: Term)
        ensures
            r@ == TermV::Builtin(DefaultFunction::EncodeUtf8),
    {
        Term::Builtin(DefaultFunction::EncodeUtf8)
    }

    /// The built-in `DecodeUtf8`.
    pub fn decode_utf8() -> (r: Term)
        ensures
            r@ == TermV::Builtin(DefaultFunction::DecodeUtf8),
    {
        Term::Builtin(DefaultFunction::DecodeUtf8)
    }

    /// The built-in `ChooseUnit`.
    pub fn choose_unit() -> (r: Term)
        ensures
            r@ == TermV::Builtin(DefaultFunction::ChooseUnit),
    {
        Term::Builtin(DefaultFunction::ChooseUnit)
    }

    /// The built-in `Trace`.
    pub fn trace() -> (r: Term)
        ensures
            r@ == TermV::Builtin(DefaultFunction::Trace),
    {
        Term::Builtin(DefaultFunction::Trace)
    }

    /// The built-in `FstPair`.
    pub fn fst_pair() -> (r: Term)
        ensures
            r@ == TermV::Builtin(DefaultFunction::FstPair),
    {
        Term::Builtin(DefaultFunction::FstPair)
    }

    /// The built-in `SndPair`.
    pub fn snd_pair() -> (r: Term)
        ensures
            r@ == TermV::Builtin(DefaultFunction::SndPair),
    {
        Term::Builtin(DefaultFunction::SndPair)
    }

    /// The built-in `ChooseList`.
    pub fn choose_list() -> (r: Term)
        ensures
            r@ == TermV::Builtin(DefaultFunction::ChooseList),
    {
        Term::Builtin(DefaultFunction::ChooseList)
    }

    /// The built-in `MkCons`.
    pub fn mk_cons() -> (r: Term)
        ensures
            r@ == TermV::Builtin(DefaultFunction::MkCons),
    {
        Term::Builtin(DefaultFunction::MkCons)
    }

    /// The built-in `HeadList`.
    pub fn head_list() -> (r: Term)
        ensures
            r@ == TermV::Builtin(DefaultFunction::HeadList),
    {
        Term::Builtin(DefaultFunction::HeadList)
    }

    /// The built-in `TailList`.
    pub fn tail_list() -> (r: Term)
        ensures
            r@ == TermV::Builtin(DefaultFunction::TailList),
    {
        Term::Builtin(DefaultFunction::TailList)
    }

    /// The built-in `NullList`.
    pub fn null_list() -> (r: Term)
        ensures
            r@ == TermV::Builtin(DefaultFunction::NullList),
    {
        Term::Builtin(DefaultFunction::NullList)
    }

    /// The built-in `ChooseData`.
    pub fn choose_data() -> (r: Term)
        ensures
            r@ == TermV::Builtin(DefaultFunction::ChooseData),
    {
        Term::Builtin(DefaultFunction::ChooseData)
    }

    /// The built-in `ConstrData`.
    pub fn constr_data() -> (r: Term)
        ensures
            r@ == TermV::Builtin(DefaultFunction::ConstrData),
    {
        Term::Builtin(DefaultFunction::ConstrData)
    }

    /// The built-in `MapData`.
    pub fn map_data() -> (r: Term)
        ensures
            r@ == TermV::Builtin(DefaultFunction::MapData),
    {
        Term::Builtin(DefaultFunction::MapData)
    }

    /// The built-in `ListData`.
    pub fn list_data() -> (r: Term)
        ensures
            r@ == TermV::Builtin(DefaultFunction::ListData),
    {
        Term::Builtin(DefaultFunction::ListData)
    }

    /// The built-in `IData`.
    pub fn i_data() -> (r: Term)
        ensures
            r@ == TermV::Builtin(DefaultFunction::IData),
    {
        Term::Builtin(DefaultFunction::IData)
    }

    /// The built-in `BData`.
    pub fn b_data() -> (r: Term)
        ensures
            r@ == TermV::Builtin(DefaultFunction::BData),
    {
        Term::Builtin(DefaultFunction::BData)
    }

    /// The built-in `UnConstrData`.
    pub fn un_constr_data() -> (r: Term)
        ensures
            r@ == TermV::Builtin(DefaultFunction::UnConstrData),
    {
        Term::Builtin(DefaultFunction::UnConstrData)
    }

    /// The built-in `UnMapData`.
    pub fn un_map_data() -> (r: Term)
        ensures
            r@ == TermV::Builtin(DefaultFunction::UnMapData),
    {
        Term::Builtin(DefaultFunction::UnMapData)
    }

    /// The built-in `UnListData`.
    pub fn un_list_data() -> (r: Term)
        ensures
            r@ == TermV::Builtin(DefaultFunction::UnListData),
    {
        Term::Builtin(DefaultFunction::UnListData)
    }

    /// The built-in `UnIData`.
    pub fn un_i_data() -> (r: Term)
        ensures
            r@ == TermV::Builtin(DefaultFunction::UnIData),
    {
        Term::Builtin(DefaultFunction::UnIData)
    }

    /// The built-in `UnBData`.
    pub fn un_b_data() -> (r: Term)
        ensures
            r@ == TermV::Builtin(DefaultFunction::UnBData),
    {
        Term::Builtin(DefaultFunction::UnBData)
    }

    /// The built-in `EqualsData`.
    pub fn equals_data() -> (r: Term)
        ensures
            r@ == TermV::Builtin(DefaultFunction::EqualsData),
    {
        Term::Builtin(DefaultFunction::EqualsData)
    }

    /// The built-in `MkPairData`.
    pub fn mk_pair_data() -> (r: Term)
        ensures
            r@ == TermV::Builtin(DefaultFunction::MkPairData),
    {
        Term::Builtin(DefaultFunction::MkPairData)
    }

    /// The built-in `MkNilData`.
    pub fn mk_nil_data() -> (r: Term)
        ensures
            r@ == TermV::Builtin(DefaultFunction::MkNilData),
    {
        Term::Builtin(DefaultFunction::MkNilData)
    }

    /// The built-in `MkNilPairData`.
    pub fn mk_nil_pair_data() -> (r: Term)
        ensures
            r@ == TermV::Builtin(DefaultFunction::MkNilPairData),
    {
        Term::Builtin(DefaultFunction::MkNilPairData)
    }

    /// The built-in `SerialiseData`.
    pub fn serialise_data() -> (r: Term)
        ensures
            r@ == TermV::Builtin(DefaultFunction::SerialiseData),
    {
        Term::Builtin(DefaultFunction::SerialiseData)
    }

    /// The built-in `Bls12_381_G1_Add`.
    pub fn bls12_381_g1_add() -> (r: Term)
        ensures
            r@ == TermV::Builtin(DefaultFunction::Bls12_381_G1_Add),
    {
        Term::Builtin(DefaultFunction::Bls12_381_G1_Add)
    }

    /// The built-in `Bls12_381_G1_Neg`.
    pub fn bls12_381_g1_neg() -> (r: Term)
        ensures
            r@ == TermV::Builtin(DefaultFunction::Bls12_381_G1_Neg),
    {
        Term::Builtin(DefaultFunction::Bls12_381_G1_Neg)
    }

    /// The built-in `Bls12_381_G1_ScalarMul`.
    pub fn bls12_381_g1_scalar_mul() -> (r: Term)
        ensures
            r@ == TermV::Builtin(DefaultFunction::Bls12_381_G1_ScalarMul),
    {
        Term::Builtin(DefaultFunction::Bls12_381_G1_ScalarMul)
    }

    /// The built-in `Bls12_381_G1_Equal`.
    pub fn bls12_381_g1_equal() -> (r: Term)
        ensures
            r@ == TermV::Builtin(DefaultFunction::Bls12_381_G1_Equal),
    {
        Term::Builtin(DefaultFunction::Bls12_381_G1_Equal)
    }

    /// The built-in `Bls12_381_G1_Compress`.
    pub fn bls12_381_g1_compress() -> (r: Term)
        ensures
            r@ == TermV::Builtin(DefaultFunction::Bls12_381_G1_Compress),
    {
        Term::Builtin(DefaultFunction::Bls12_381_G1_Compress)
    }

    /// The built-in `Bls12_381_G1_Uncompress`.
    pub fn bls12_381_g1_uncompress() -> (r: Term)
        ensures
            r@ == TermV::Builtin(DefaultFunction::Bls12_381_G1_Uncompress),
    {
        Term::Builtin(DefaultFunction::Bls12_381_G1_Uncompress)
    }

    /// The built-in `Bls12_381_G1_HashToGroup`.
    pub fn bls12_381_g1_hash_to_group() -> (r: Term)
        ensures
            r@ == TermV::Builtin(DefaultFunction::Bls12_381_G1_HashToGroup),
    {
        Term::Builtin(DefaultFunction::Bls12_381_G1_HashToGroup)
    }

    /// The built-in `Bls12_381_G2_Add`.
    pub fn bls12_381_g2_add() -> (r: Term)
        ensures
            r@ == TermV::Builtin(DefaultFunction::Bls12_381_G2_Add),
    {
        Term::Builtin(DefaultFunction::Bls12_381_G2_Add)
    }

    /// The built-in `Bls12_381_G2_Neg`.
    pub fn bls12_381_g2_neg() -> (r: Term)
        ensures
            r@ == TermV::Builtin(DefaultFunction::Bls12_381_G2_Neg),
    {
        Term::Builtin(DefaultFunction::Bls12_381_G2_Neg)
    }

    /// The built-in `Bls12_381_G2_ScalarMul`.
    pub fn bls12_381_g2_scalar_mul() -> (r: Term)
        ensures
            r@ == TermV::Builtin(DefaultFunction::Bls12_381_G2_ScalarMul),
    {
        Term::Builtin(DefaultFunction::Bls12_381_G2_ScalarMul)
    }

    /// The built-in `Bls12_381_G2_Equal`.
    pub fn bls12_381_g2_equal() -> (r: Term)
        ensures
            r@ == TermV::Builtin(DefaultFunction::Bls12_381_G2_Equal),
    {
        Term::Builtin(DefaultFunction::Bls12_381_G2_Equal)
    }

    /// The built-in `Bls12_381_G2_Compress`.
    pub fn bls12_381_g2_compress() -> (r: Term)
        ensures
            r@ == TermV::Builtin(DefaultFunction::Bls12_381_G2_Compress),
    {
        Term::Builtin(DefaultFunction::Bls12_381_G2_Compress)
    }

    /// The built-in `Bls12_381_G2_Uncompress`.
    pub fn bls12_381_g2_uncompress() -> (r: Term)
        ensures
            r@ == TermV::Builtin(DefaultFunction::Bls12_381_G2_Uncompress),
    {
        Term::Builtin(DefaultFunction::Bls12_381_G2_Uncompress)
    }

    /// The built-in `Bls12_381_G2_HashToGroup`.
    pub fn bls12_381_g2_hash_to_group() -> (r: Term)
        ensures
            r@ == TermV::Builtin(DefaultFunction::Bls12_381_G2_HashToGroup),
    {
        Term::Builtin(DefaultFunction::Bls12_381_G2_HashToGroup)
    }

    /// The built-in `Bls12_381_MillerLoop`.
    pub fn bls12_381_miller_loop() -> (r: Term)
        ensures
            r@ == TermV::Builtin(DefaultFunction::Bls12_381_MillerLoop),
    {
        Term::Builtin(DefaultFunction::Bls12_381_MillerLoop)
    }

    /// The built-in `Bls12_381_MulMlResult`.
    pub fn bls12_381_mul_ml_result() -> (r: Term)
        ensures
            r@ == TermV::Builtin(DefaultFunction::Bls12_381_MulMlResult),
    {
        Term::Builtin(DefaultFunction::Bls12_381_MulMlResult)
    }

    /// The built-in `Bls12_381_FinalVerify`.
    pub fn bls12_381_final_verify() -> (r: Term)
        ensures
            r@ == TermV::Builtin(DefaultFunction::Bls12_381_FinalVerify),
    {
        Term::Builtin(DefaultFunction::Bls12_381_FinalVerify)
    }

    /// The built-in `IntegerToByteString`.
    pub fn integer_to_byte_string() -> (r: Term)
        ensures
            r@ == TermV::Builtin(DefaultFunction::IntegerToByteString),
    {
        Term::Builtin(DefaultFunction::IntegerToByteString)
    }

    /// The built-in `ByteStringToInteger`.
    pub fn byte_string_to_integer() -> (r: Term)
        ensures
            r@ == TermV::Builtin(DefaultFunction::ByteStringToInteger),
    {
        Term::Builtin(DefaultFunction::ByteStringToInteger)
    }

    /// The built-in `AndByteString`.
    pub fn and_byte_string() -> (r: Term)
        ensures
            r@ == TermV::Builtin(DefaultFunction::AndByteString),
    {
        Term::Builtin(DefaultFunction::AndByteString)
    }

    /// The built-in `OrByteString`.
    pub fn or_byte_string() -> (r: Term)
        ensures
            r@ == TermV::Builtin(DefaultFunction::OrByteString),
    {
        Term::Builtin(DefaultFunction::OrByteString)
    }

    /// The built-in `XorByteString`.
    pub fn xor_byte_string() -> (r: Term)
        ensures
            r@ == TermV::Builtin(DefaultFunction::XorByteString),
    {
        Term::Builtin(DefaultFunction::XorByteString)
    }

    /// The built-in `ComplementByteString`.
    pub fn complement_byte_string() -> (r: Term)
        ensures
            r@ == TermV::Builtin(DefaultFunction::ComplementByteString),
    {
        Term::Builtin(DefaultFunction::ComplementByteString)
    }

    /// The built-in `ReadBit`.
    pub fn read_bit() -> (r: Term)
        ensures
            r@ == TermV::Builtin(DefaultFunction::ReadBit),
    {
        Term::Builtin(DefaultFunction::ReadBit)
    }

    /// The built-in `WriteBits`.
    pub fn write_bits() -> (r: Term)
        ensures
            r@ == TermV::Builtin(DefaultFunction::WriteBits),
    {
        Term::Builtin(DefaultFunction::WriteBits)
    }

    /// The built-in `ReplicateByte`.
    pub fn replicate_byte() -> (r: Term)
        ensures
            r@ == TermV::Builtin(DefaultFunction::ReplicateByte),
    {
        Term::Builtin(DefaultFunction::ReplicateByte)
    }

    /// The built-in `ShiftByteString`.
    pub fn shift_byte_string() -> (r: Term)
        ensures
            r@ == TermV::Builtin(DefaultFunction::ShiftByteString),
    {
        Term::Builtin(DefaultFunction::ShiftByteString)
    }

    /// The built-in `RotateByteString`.
    pub fn rotate_byte_string() -> (r: Term)
        ensures
            r@ == TermV::Builtin(DefaultFunction::RotateByteString),
    {
        Term::Builtin(DefaultFunction::RotateByteString)
    }

    /// The built-in `CountSetBits`.
    pub fn count_set_bits() -> (r: Term)
        ensures
            r@ == TermV::Builtin(DefaultFunction::CountSetBits),
    {
        Term::Builtin(DefaultFunction::CountSetBits)
    }

    /// The built-in `FindFirstSetBit`.
    pub fn find_first_set_bit() -> (r: Term)
        ensures
            r@ == TermV::Builtin(DefaultFunction::FindFirstSetBit),
    {
        Term::Builtin(DefaultFunction::FindFirstSetBit)
    }

    /// The built-in `Ripemd_160`.
    pub fn ripemd_160() -> (r: Term)
        ensures
            r@ == TermV::Builtin(DefaultFunction::Ripemd_160),
    {
        Term::Builtin(DefaultFunction::Ripemd_160)
    }

    /// The built-in `ExpModInteger`.
    pub fn exp_mod_integer() -> (r: Term)
        ensures
            r@ == TermV::Builtin(DefaultFunction::ExpModInteger),
    {
        Term::Builtin(DefaultFunction::ExpModInteger)
    }

    /// The built-in `DropList`.
    pub fn drop_list() -> (r: Term)
        ensures
            r@ == TermV::Builtin(DefaultFunction::DropList),
    {
        Term::Builtin(DefaultFunction::DropList)
    }

    /// The built-in `LengthOfArray`.
    pub fn length_of_array() -> (r: Term)
        ensures
            r@ == TermV::Builtin(DefaultFunction::LengthOfArray),
    {
        Term::Builtin(DefaultFunction::LengthOfArray)
    }

    /// The built-in `ListToArray`.
    pub fn list_to_array() -> (r: Term)
        ensures
            r@ == TermV::Builtin(DefaultFunction::ListToArray),
    {
        Term::Builtin(DefaultFunction::ListToArray)
    }

    /// The built-in `IndexArray`.
    pub fn index_array() -> (r: Term)
        ensures
            r@ == TermV::Builtin(DefaultFunction::IndexArray),
    {
        Term::Builtin(DefaultFunction::IndexArray)
    }
}

} // verus!
