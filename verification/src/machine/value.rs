//! Values of the CEK machine, their environments and partially applied
//! built-ins.

use std::rc::Rc;

use vstd::prelude::*;

use crate::builtin::DefaultFunction;
use crate::constant::{Constant, ConstantV};
use crate::integer::Integer;
use crate::term::{Term, TermV};

verus! {

/// `Rc::clone`: another pointer to the same value.
#[verifier::external_body]
pub(crate) fn rc_clone<T>(r: &Rc<T>) -> (c: Rc<T>)
    ensures
        c == *r,
{
    Rc::clone(r)
}

/// A value: the result of evaluating a term.
pub enum Value<'a> {
    /// A constant.
    Con(Rc<Constant>),
    /// A lambda closed over its environment.
    Lambda { parameter: usize, body: &'a Term, env: Env<'a> },
    /// A built-in, possibly forced and applied to some arguments.
    Builtin(Runtime<'a>),
    /// A delayed term closed over its environment.
    Delay(&'a Term, Env<'a>),
    /// A constructor value.
    Constr(usize, Vec<Rc<Value<'a>>>),
}

/// A built-in with the forces and arguments it has received so far.
pub struct Runtime<'a> {
    /// The arguments received, in order.
    pub args: Vec<Rc<Value<'a>>>,
    /// The built-in.
    pub fun: DefaultFunction,
    /// The number of forces received.
    pub forces: usize,
}

/// An environment: a persistent list of values, most recent first.
pub struct Env<'a> {
    pub head: Option<Rc<EnvNode<'a>>>,
}

/// One binding of an environment and the rest of it.
pub struct EnvNode<'a> {
    pub value: Rc<Value<'a>>,
    pub next: Env<'a>,
}

/// The mathematical value of a [`Value`]; environments are sequences of
/// values, most recent first.
pub enum ValueV {
    Con(ConstantV),
    Lambda(nat, TermV, Seq<ValueV>),
    Builtin(DefaultFunction, nat, Seq<ValueV>),
    Delay(TermV, Seq<ValueV>),
    Constr(nat, Seq<ValueV>),
}

/// The value of a machine value.
pub open spec fn value_view(v: Value) -> ValueV
    decreases v,
{
    match v {
        Value::Con(c) => ValueV::Con(c@),
        Value::Lambda { parameter, body, env } => ValueV::Lambda(
            parameter as nat,
            body@,
            env_view(env),
        ),
        Value::Builtin(rt) => ValueV::Builtin(rt.fun, rt.forces as nat, values_view(rt.args@)),
        Value::Delay(body, env) => ValueV::Delay(body@, env_view(env)),
        Value::Constr(tag, fields) => ValueV::Constr(tag as nat, values_view(fields@)),
    }
}

/// The values of a sequence of machine values.
pub open spec fn values_view(s: Seq<Rc<Value>>) -> Seq<ValueV>
    decreases s,
{
    if s.len() == 0 {
        Seq::empty()
    } else {
        seq![value_view(*s[0])] + values_view(s.subrange(1, s.len() as int))
    }
}

/// The values of an environment, most recent first.
pub open spec fn env_view(e: Env) -> Seq<ValueV>
    decreases e,
{
    match e.head {
        Some(node) => seq![value_view(*node.value)] + env_view(node.next),
        None => Seq::empty(),
    }
}

impl<'a> View for Value<'a> {
    type V = ValueV;

    open spec fn view(&self) -> ValueV {
        value_view(*self)
    }
}

impl<'a> View for Env<'a> {
    type V = Seq<ValueV>;

    open spec fn view(&self) -> Seq<ValueV> {
        env_view(*self)
    }
}

/// Appending one value appends its view.
pub proof fn lemma_values_view_push(s: Seq<Rc<Value>>, x: Rc<Value>)
    ensures
        values_view(s.push(x)) == values_view(s).push(value_view(*x)),
    decreases s.len(),
{
    if s.len() == 0 {
        assert(s.push(x).subrange(1, 1) =~= Seq::<Rc<Value>>::empty());
        assert(values_view(Seq::<Rc<Value>>::empty()) == Seq::<ValueV>::empty());
        assert(seq![value_view(*x)] + Seq::<ValueV>::empty() =~= Seq::<ValueV>::empty().push(value_view(*x)));
    } else {
        lemma_values_view_push(s.subrange(1, s.len() as int), x);
        assert(s.push(x).subrange(1, (s.len() + 1) as int) =~= s.subrange(1, s.len() as int).push(x));
        assert(seq![value_view(*s[0])] + values_view(s.subrange(1, s.len() as int)).push(value_view(*x))
            =~= (seq![value_view(*s[0])] + values_view(s.subrange(1, s.len() as int))).push(value_view(*x)));
    }
}

/// The view of a sequence of values has one value per item.
pub proof fn lemma_values_view_index(s: Seq<Rc<Value>>)
    ensures
        values_view(s).len() == s.len(),
        forall|i: int| 0 <= i < s.len() ==> #[trigger] values_view(s)[i] == value_view(*s[i]),
    decreases s.len(),
{
    if s.len() > 0 {
        lemma_values_view_index(s.subrange(1, s.len() as int));
        assert forall|i: int| 0 <= i < s.len() implies #[trigger] values_view(s)[i] == value_view(*s[i]) by {
            if i > 0 {
                assert(s.subrange(1, s.len() as int)[i - 1] == s[i]);
            }
        }
    }
}

/// Copies the pointers of a vector of values.
pub fn copy_values<'a>(v: &Vec<Rc<Value<'a>>>) -> (r: Vec<Rc<Value<'a>>>)
    ensures
        r@ == v@,
        values_view(r@) == values_view(v@),
{
    let mut out: Vec<Rc<Value<'a>>> = Vec::new();
    let mut k: usize = 0;
    while k < v.len()
        invariant
            k <= v@.len(),
            out@ == v@.subrange(0, k as int),
        decreases v@.len() - k,
    {
        out.push(rc_clone(&v[k]));
        k += 1;
        assert(out@ =~= v@.subrange(0, k as int));
    }
    assert(v@.subrange(0, v@.len() as int) =~= v@);
    out
}

impl<'a> Env<'a> {
    /// The empty environment.
    pub fn new() -> (r: Env<'a>)
        ensures
            r@ == Seq::<ValueV>::empty(),
    {
        Env { head: None }
    }

    /// Another handle on the same environment.
    pub fn share(&self) -> (r: Env<'a>)
        ensures
            r == *self,
            r@ == self@,
    {
        match &self.head {
            Some(n) => Env { head: Some(rc_clone(n)) },
            None => Env { head: None },
        }
    }

    /// The environment with `arg` bound innermost.
    pub fn push(&self, arg: Rc<Value<'a>>) -> (r: Env<'a>)
        ensures
            r@ == seq![(*arg)@] + self@,
    {
        Env { head: Some(Rc::new(EnvNode { value: arg, next: self.share() })) }
    }

    /// The value bound by De Bruijn index `index` (1 is the innermost).
    pub fn lookup(&self, index: usize) -> (r: Option<Rc<Value<'a>>>)
        ensures
            1 <= index <= self@.len() ==> (r matches Some(v) && (*v)@ == self@[index - 1]),
            !(1 <= index <= self@.len()) ==> r is None,
        decreases self,
    {
        if index == 0 {
            return None;
        }
        match &self.head {
            Some(node) => {
                if index == 1 {
                    Some(rc_clone(&node.value))
                } else {
                    proof {
                        assert(decreases_to!(*self => self.head));
                    }
                    let r = node.next.lookup(index - 1);
                    proof {
                        assert(self@ == seq![(*node.value)@] + node.next@);
                    }
                    r
                }
            },
            None => None,
        }
    }
}

impl<'a> Value<'a> {
    /// The constant value `c`.
    pub fn con(c: Rc<Constant>) -> (r: Rc<Value<'a>>)
        ensures
            (*r)@ == ValueV::Con((*c)@),
    {
        Rc::new(Value::Con(c))
    }

    /// The integer value `i`.
    pub fn integer(i: Integer) -> (r: Rc<Value<'a>>)
        ensures
            (*r)@ == ValueV::Con(ConstantV::Integer(i@)),
    {
        Rc::new(Value::Con(Rc::new(Constant::Integer(i))))
    }

    /// The byte-string value `b`.
    pub fn byte_string(b: Vec<u8>) -> (r: Rc<Value<'a>>)
        ensures
            (*r)@ == ValueV::Con(ConstantV::ByteString(b@)),
    {
        Rc::new(Value::Con(Rc::new(Constant::ByteString(b))))
    }

    /// The string value `s`.
    pub fn string(s: String) -> (r: Rc<Value<'a>>)
        ensures
            (*r)@ == ValueV::Con(ConstantV::String(s@)),
    {
        Rc::new(Value::Con(Rc::new(Constant::String(s))))
    }

    /// The boolean value `b`.
    pub fn bool(b: bool) -> (r: Rc<Value<'a>>)
        ensures
            (*r)@ == ValueV::Con(ConstantV::Boolean(b)),
    {
        Rc::new(Value::Con(Rc::new(Constant::Boolean(b))))
    }

    /// The constructor value with `tag` and no fields.
    pub fn constr_empty(tag: usize) -> (r: Rc<Value<'a>>)
        ensures
            (*r)@ == ValueV::Constr(tag as nat, Seq::empty()),
    {
        Rc::new(Value::Constr(tag, Vec::new()))
    }
}

} // verus!
