//! Turning values back into terms.

use std::rc::Rc;

use vstd::prelude::*;

use crate::binder::DeBruijn;
use crate::builtin::DefaultFunction;
use crate::constant::copy_constant;
use crate::term::{lemma_terms_view_index, lemma_terms_view_push, terms_view, Term, TermV};

use super::value::{lemma_values_view_index, values_view, Env, Value, ValueV};

verus! {

/// The term a value stands for.
pub open spec fn discharge(v: ValueV) -> TermV
    decreases v, TermV::Error,
{
    match v {
        ValueV::Con(c) => TermV::Constant(c),
        ValueV::Builtin(f, forces, args) => apply_all(forced(TermV::Builtin(f), forces), args),
        ValueV::Delay(body, env) => with_env(0, env, TermV::Delay(Box::new(body))),
        ValueV::Lambda(p, body, env) => with_env(0, env, TermV::Lambda(p, Box::new(body))),
        ValueV::Constr(tag, fields) => TermV::Constr(tag, discharge_all(fields)),
    }
}

/// `t` forced `n` times.
pub open spec fn forced(t: TermV, n: nat) -> TermV
    decreases n,
{
    if n == 0 {
        t
    } else {
        TermV::Force(Box::new(forced(t, (n - 1) as nat)))
    }
}

/// `t` applied to the terms of `args`, in order.
pub open spec fn apply_all(t: TermV, args: Seq<ValueV>) -> TermV
    decreases args, TermV::Error,
{
    if args.len() == 0 {
        t
    } else {
        TermV::Apply(Box::new(apply_all(t, args.drop_last())), Box::new(discharge(args.last())))
    }
}

/// The terms of a sequence of values.
pub open spec fn discharge_all(s: Seq<ValueV>) -> Seq<TermV>
    decreases s, TermV::Error,
{
    if s.len() == 0 {
        Seq::empty()
    } else {
        discharge_all(s.drop_last()).push(discharge(s.last()))
    }
}

/// The binder count under one more lambda; it stays at `usize::MAX`, which
/// no index exceeds.
pub open spec fn next_lam(lam: nat) -> nat {
    if lam >= usize::MAX {
        lam
    } else {
        lam + 1
    }
}

/// `t` with the variables that are free under `lam` binders replaced by
/// the terms of the values they refer to in `env`.
pub open spec fn with_env(lam: nat, env: Seq<ValueV>, t: TermV) -> TermV
    decreases env, t,
{
    match t {
        TermV::Var(i) => if lam >= i {
            TermV::Var(i)
        } else if i - lam <= env.len() {
            discharge(env[i - lam - 1])
        } else {
            TermV::Var(i)
        },
        TermV::Lambda(p, b) => TermV::Lambda(p, Box::new(with_env(next_lam(lam), env, *b))),
        TermV::Apply(f, a) => TermV::Apply(
            Box::new(with_env(lam, env, *f)),
            Box::new(with_env(lam, env, *a)),
        ),
        TermV::Delay(b) => TermV::Delay(Box::new(with_env(lam, env, *b))),
        TermV::Force(b) => TermV::Force(Box::new(with_env(lam, env, *b))),
        TermV::Case(c, bs) => TermV::Case(Box::new(with_env(lam, env, *c)), with_env_all(lam, env, bs)),
        TermV::Constr(tag, fs) => TermV::Constr(tag, with_env_all(lam, env, fs)),
        _ => t,
    }
}

/// [`with_env`] on each term of a sequence.
pub open spec fn with_env_all(lam: nat, env: Seq<ValueV>, s: Seq<TermV>) -> Seq<TermV>
    decreases env, s,
{
    if s.len() == 0 {
        Seq::empty()
    } else {
        with_env_all(lam, env, s.drop_last()).push(with_env(lam, env, s.last()))
    }
}

/// The term a value stands for.
pub fn value_as_term<'a>(v: &Value<'a>) -> (r: Term)
    ensures
        r@ == discharge(v@),
    decreases v@, TermV::Error, 0nat,
{
    match v {
        Value::Con(c) => Term::Constant(copy_constant(&**c)),
        Value::Builtin(rt) => {
            let mut t = Term::Builtin(rt.fun);
            let mut k: usize = 0;
            while k < rt.forces
                invariant
                    k <= rt.forces,
                    t@ == forced(TermV::Builtin(rt.fun), k as nat),
                decreases rt.forces - k,
            {
                t = t.force();
                k += 1;
            }
            let ghost args = values_view(rt.args@);
            let ghost base = t@;
            proof {
                lemma_values_view_index(rt.args@);
                assert(args.subrange(0, 0) =~= Seq::<ValueV>::empty());
            }
            let mut i: usize = 0;
            while i < rt.args.len()
                invariant
                    i <= rt.args@.len(),
                    args == values_view(rt.args@),
                    args.len() == rt.args@.len(),
                    forall|j: int| 0 <= j < rt.args@.len() ==> #[trigger] args[j] == (*rt.args@[j])@,
                    v@ == ValueV::Builtin(rt.fun, rt.forces as nat, args),
                    t@ == apply_all(base, args.subrange(0, i as int)),
                decreases rt.args@.len() - i,
            {
                proof {
                    assert(decreases_to!(v@ => (v@)->Builtin_2));
                    assert(decreases_to!(args => args[i as int]));
                }
                let a = value_as_term(&*rt.args[i]);
                proof {
                    assert(args.subrange(0, i + 1).drop_last() =~= args.subrange(0, i as int));
                }
                t = t.apply(a);
                i += 1;
            }
            proof {
                assert(args.subrange(0, rt.args@.len() as int) =~= args);
            }
            t
        },
        Value::Delay(body, env) => {
            proof {
                assert(decreases_to!(v@ => env@));
            }
            let b = with_env_term(0, env, body);
            Term::Delay(Box::new(b))
        },
        Value::Lambda { parameter, body, env } => {
            proof {
                assert(decreases_to!(v@ => env@));
            }
            let b = with_env_term(1, env, body);
            Term::Lambda { parameter: DeBruijn(*parameter), body: Box::new(b) }
        },
        Value::Constr(tag, fields) => {
            let ghost vs = values_view(fields@);
            proof {
                lemma_values_view_index(fields@);
            }
            let mut out: Vec<Term> = Vec::new();
            let mut i: usize = 0;
            proof {
                assert(terms_view(out@) =~= discharge_all(vs.subrange(0, 0))) by {
                    assert(vs.subrange(0, 0) =~= Seq::<ValueV>::empty());
                }
            }
            while i < fields.len()
                invariant
                    i <= fields@.len(),
                    vs == values_view(fields@),
                    vs.len() == fields@.len(),
                    forall|j: int| 0 <= j < fields@.len() ==> #[trigger] vs[j] == (*fields@[j])@,
                    v@ == ValueV::Constr(*tag as nat, vs),
                    terms_view(out@) == discharge_all(vs.subrange(0, i as int)),
                decreases fields@.len() - i,
            {
                proof {
                    assert(decreases_to!(v@ => (v@)->Constr_1));
                    assert(decreases_to!(vs => vs[i as int]));
                }
                let a = value_as_term(&*fields[i]);
                proof {
                    lemma_terms_view_push(out@, a);
                    assert(vs.subrange(0, i + 1).drop_last() =~= vs.subrange(0, i as int));
                }
                out.push(a);
                i += 1;
            }
            proof {
                assert(vs.subrange(0, fields@.len() as int) =~= vs);
            }
            Term::Constr { tag: *tag, fields: out }
        },
    }
}

/// `t` with its free variables (under `lam` binders) replaced by the terms
/// of the values they refer to in `env`.
fn with_env_term<'a>(lam: usize, env: &Env<'a>, t: &Term) -> (r: Term)
    ensures
        r@ == with_env(lam as nat, env@, t@),
    decreases env@, t@, 1nat,
{
    match t {
        Term::Var(i) => {
            if lam >= i.0 {
                Term::Var(*i)
            } else {
                match env.lookup(i.0 - lam) {
                    Some(v) => {
                        proof {
                            assert(decreases_to!(env@ => env@[i.0 - lam - 1]));
                        }
                        value_as_term(&*v)
                    },
                    None => Term::Var(*i),
                }
            }
        },
        Term::Lambda { parameter, body } => {
            let next = if lam < usize::MAX { lam + 1 } else { lam };
            let b = with_env_term(next, env, body);
            Term::Lambda { parameter: *parameter, body: Box::new(b) }
        },
        Term::Apply { function, argument } => {
            let f = with_env_term(lam, env, function);
            let a = with_env_term(lam, env, argument);
            Term::Apply { function: Box::new(f), argument: Box::new(a) }
        },
        Term::Delay(b) => Term::Delay(Box::new(with_env_term(lam, env, b))),
        Term::Force(b) => Term::Force(Box::new(with_env_term(lam, env, b))),
        Term::Case { constr, branches } => {
            let c = with_env_term(lam, env, constr);
            let bs = with_env_terms(lam, env, t, branches);
            Term::Case { constr: Box::new(c), branches: bs }
        },
        Term::Constr { tag, fields } => {
            let fs = with_env_terms(lam, env, t, fields);
            Term::Constr { tag: *tag, fields: fs }
        },
        Term::Constant(c) => Term::Constant(copy_constant(c)),
        Term::Builtin(f) => Term::Builtin(*f),
        Term::Error => Term::Error,
    }
}

/// [`with_env_term`] on the branches of a case or the fields of a
/// constructor.
fn with_env_terms<'a>(lam: usize, env: &Env<'a>, parent: &Term, items: &Vec<Term>) -> (r: Vec<Term>)
    requires
        (parent matches Term::Case { branches, .. } && branches == *items) || (parent matches Term::Constr { fields, .. } && fields == *items),
    ensures
        terms_view(r@) == with_env_all(lam as nat, env@, terms_view(items@)),
    decreases env@, parent@, 0nat,
{
    let ghost ts = terms_view(items@);
    proof {
        lemma_terms_view_index(items@);
        assert(ts.subrange(0, 0) =~= Seq::<TermV>::empty());
    }
    let mut out: Vec<Term> = Vec::new();
    let mut i: usize = 0;
    while i < items.len()
        invariant
            i <= items@.len(),
            ts == terms_view(items@),
            ts.len() == items@.len(),
            forall|j: int| 0 <= j < items@.len() ==> #[trigger] ts[j] == items@[j]@,
            (parent matches Term::Case { branches, .. } && branches == *items) || (parent matches Term::Constr { fields, .. } && fields == *items),
            terms_view(out@) == with_env_all(lam as nat, env@, ts.subrange(0, i as int)),
        decreases items@.len() - i,
    {
        proof {
            assert(decreases_to!(ts => ts[i as int]));
            if parent is Case {
                assert(decreases_to!(parent@ => (parent@)->Case_1));
            } else {
                assert(decreases_to!(parent@ => (parent@)->Constr_1));
            }
        }
        let a = with_env_term(lam, env, &items[i]);
        proof {
            lemma_terms_view_push(out@, a);
            assert(ts.subrange(0, i + 1).drop_last() =~= ts.subrange(0, i as int));
        }
        out.push(a);
        i += 1;
    }
    proof {
        assert(ts.subrange(0, items@.len() as int) =~= ts);
    }
    out
}

/// Whether every variable of `t` is bound within it or by one of `k`
/// enclosing lambdas: under `d` lambdas of `t`, each index is at most
/// `k + d` (and the lambdas nest fewer than `usize::MAX` deep).
pub open spec fn bound_within(t: TermV, k: nat) -> bool
    decreases t,
{
    match t {
        TermV::Var(i) => i <= k,
        TermV::Lambda(_, b) => k < usize::MAX && bound_within(*b, k + 1),
        TermV::Apply(f, a) => bound_within(*f, k) && bound_within(*a, k),
        TermV::Delay(b) => bound_within(*b, k),
        TermV::Force(b) => bound_within(*b, k),
        TermV::Case(c, bs) => bound_within(*c, k) && all_bound_within(bs, k),
        TermV::Constr(_, fs) => all_bound_within(fs, k),
        _ => true,
    }
}

/// [`bound_within`] of every term of a sequence.
pub open spec fn all_bound_within(s: Seq<TermV>, k: nat) -> bool
    decreases s,
{
    s.len() > 0 ==> all_bound_within(s.drop_last(), k) && bound_within(s.last(), k)
}

/// Putting an environment into a term under `k` enclosing lambdas keeps
/// every variable that the term binds itself or that those lambdas bind:
/// a term whose variables are all bound so comes back unchanged, whatever
/// the environment.
pub proof fn lemma_with_env_keeps_bound_variables(k: nat, env: Seq<ValueV>, t: TermV)
    requires
        bound_within(t, k),
    ensures
        with_env(k, env, t) == t,
    decreases t,
{
    match t {
        TermV::Lambda(p, b) => {
            lemma_with_env_keeps_bound_variables(k + 1, env, *b);
        },
        TermV::Apply(f, a) => {
            lemma_with_env_keeps_bound_variables(k, env, *f);
            lemma_with_env_keeps_bound_variables(k, env, *a);
        },
        TermV::Delay(b) => {
            lemma_with_env_keeps_bound_variables(k, env, *b);
        },
        TermV::Force(b) => {
            lemma_with_env_keeps_bound_variables(k, env, *b);
        },
        TermV::Case(c, bs) => {
            lemma_with_env_keeps_bound_variables(k, env, *c);
            lemma_with_env_all_keeps_bound_variables(k, env, bs);
        },
        TermV::Constr(_, fs) => {
            lemma_with_env_all_keeps_bound_variables(k, env, fs);
        },
        _ => {},
    }
}

/// [`lemma_with_env_keeps_bound_variables`] for each term of a sequence.
pub proof fn lemma_with_env_all_keeps_bound_variables(k: nat, env: Seq<ValueV>, s: Seq<TermV>)
    requires
        all_bound_within(s, k),
    ensures
        with_env_all(k, env, s) == s,
    decreases s,
{
    if s.len() > 0 {
        lemma_with_env_all_keeps_bound_variables(k, env, s.drop_last());
        lemma_with_env_keeps_bound_variables(k, env, s.last());
        assert(s.drop_last().push(s.last()) =~= s);
    }
}

/// A closure whose body refers only to its own parameter and to variables
/// bound inside it discharges to its lambda unchanged.
pub proof fn lemma_discharge_closed_lambda(p: nat, body: TermV, env: Seq<ValueV>)
    requires
        bound_within(body, 1),
    ensures
        discharge(ValueV::Lambda(p, body, env)) == TermV::Lambda(p, Box::new(body)),
{
    lemma_with_env_keeps_bound_variables(1, env, body);
}

/// `t` under `d` lambdas that bind parameter 0.
pub open spec fn under_lambdas(d: nat, t: TermV) -> TermV
    decreases d,
{
    if d == 0 {
        t
    } else {
        TermV::Lambda(0, Box::new(under_lambdas((d - 1) as nat, t)))
    }
}

/// Under `d` lambdas, a variable of index `i` is bound by one of them when
/// `i <= d` and is kept; a variable `j` past them (`i == d + j`, `1 <= j <=
/// len env`) refers to the `j`-th most recent entry of the environment and
/// becomes the term of that value.
pub proof fn lemma_with_env_under_lambdas(d: nat, env: Seq<ValueV>, i: nat)
    requires
        d < usize::MAX,
    ensures
        i <= d ==> with_env(0, env, under_lambdas(d, TermV::Var(i))) == under_lambdas(d, TermV::Var(i)),
        d < i <= d + env.len() ==> with_env(0, env, under_lambdas(d, TermV::Var(i))) == under_lambdas(
            d,
            discharge(env[i - d - 1]),
        ),
{
    lemma_with_env_under_lambdas_from(0, d, env, i);
}

/// [`lemma_with_env_under_lambdas`] from `k` enclosing lambdas.
proof fn lemma_with_env_under_lambdas_from(k: nat, d: nat, env: Seq<ValueV>, i: nat)
    requires
        k + d < usize::MAX,
    ensures
        i <= k + d ==> with_env(k, env, under_lambdas(d, TermV::Var(i))) == under_lambdas(d, TermV::Var(i)),
        k + d < i <= k + d + env.len() ==> with_env(k, env, under_lambdas(d, TermV::Var(i))) == under_lambdas(
            d,
            discharge(env[i - k - d - 1]),
        ),
    decreases d,
{
    if d > 0 {
        lemma_with_env_under_lambdas_from(k + 1, (d - 1) as nat, env, i);
    }
}

/// A delayed term whose variables are all bound inside it discharges to
/// itself, delayed.
pub proof fn lemma_discharge_closed_delay(body: TermV, env: Seq<ValueV>)
    requires
        bound_within(body, 0),
    ensures
        discharge(ValueV::Delay(body, env)) == TermV::Delay(Box::new(body)),
{
    lemma_with_env_keeps_bound_variables(0, env, body);
}

/// A constant discharges to itself, and a constructor value to the
/// constructor term of the same tag whose `i`-th field is the term of its
/// `i`-th field, in order.
pub proof fn lemma_discharge_data(v: ValueV)
    ensures
        v matches ValueV::Con(c) ==> discharge(v) == TermV::Constant(c),
        v matches ValueV::Constr(tag, fields) ==> (discharge(v) matches TermV::Constr(t2, fs) && t2 == tag
            && fs.len() == fields.len() && forall|i: int| 0 <= i < fields.len() ==> #[trigger] fs[i] == discharge(
            fields[i],
        )),
{
    if let ValueV::Constr(tag, fields) = v {
        lemma_discharge_all_index(fields);
    }
}

/// The `i`-th term of [`discharge_all`] is the term of the `i`-th value.
pub proof fn lemma_discharge_all_index(s: Seq<ValueV>)
    ensures
        discharge_all(s).len() == s.len(),
        forall|i: int| 0 <= i < s.len() ==> #[trigger] discharge_all(s)[i] == discharge(s[i]),
    decreases s.len(),
{
    if s.len() > 0 {
        lemma_discharge_all_index(s.drop_last());
        assert forall|i: int| 0 <= i < s.len() implies #[trigger] discharge_all(s)[i] == discharge(s[i]) by {
            if i < s.len() - 1 {
                assert(s.drop_last()[i] == s[i]);
            }
        }
    }
}

/// A built-in value with `n` forces and arguments `args` discharges to the
/// built-in forced `n` times and then applied to the terms of its
/// arguments, the first innermost: one more argument is one more
/// application on the outside, and with no argument it is the forces alone.
pub proof fn lemma_discharge_builtin(f: DefaultFunction, n: nat, args: Seq<ValueV>, v: ValueV)
    ensures
        discharge(ValueV::Builtin(f, n, args.push(v))) == TermV::Apply(
            Box::new(discharge(ValueV::Builtin(f, n, args))),
            Box::new(discharge(v)),
        ),
        discharge(ValueV::Builtin(f, 0, Seq::empty())) == TermV::Builtin(f),
        discharge(ValueV::Builtin(f, n + 1, Seq::empty())) == TermV::Force(
            Box::new(discharge(ValueV::Builtin(f, n, Seq::empty()))),
        ),
{
    assert(args.push(v).drop_last() =~= args);
}

} // verus!
