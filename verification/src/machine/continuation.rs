//! Returning a value to the innermost frame of the machine.

use std::rc::Rc;

use vstd::prelude::*;

use crate::builtin::{spec_arity, spec_force_count, BuiltinSemantics};
use crate::constant::{
    constants_view, copy_constant, copy_type, lemma_constants_view_push, Constant, ConstantV,
};
use crate::cost_model::builtin_costs::CostModel;
use crate::term::{lemma_terms_view_drop_first, lemma_terms_view_index, terms_view, Term, TermV};

use super::cek::{
    exhausted, makes_progress, progressed, after_call, flush_from, frame_view, machine_call, stack_view, state_view, transition_view,
    Acct, Frame, FrameV, Machine, MachineState, StateV, Transition, SLIPPAGE,
};
use super::discharge::{discharge, value_as_term};
use super::error::MachineError;
use super::value::{
    copy_values, lemma_values_view_index, lemma_values_view_push, rc_clone, values_view, Env,
    Value, ValueV,
};

verus! {

/// Pushes a frame awaiting a function for each field, the last field
/// first, so that the first field ends on top.
pub open spec fn transfer(stack: Seq<FrameV>, fields: Seq<ValueV>) -> Seq<FrameV>
    decreases fields.len(),
{
    if fields.len() == 0 {
        stack
    } else {
        transfer(stack.push(FrameV::AwaitFunValue(fields.last())), fields.drop_last())
    }
}

/// Applying the value `f` to the value `arg`.
pub open spec fn apply_evaluate(
    a: Acct,
    costs: CostModel,
    semantics: BuiltinSemantics,
    stack: Seq<FrameV>,
    f: ValueV,
    arg: ValueV,
) -> Transition {
    match f {
        ValueV::Lambda(_, body, env) => (a, stack, Ok(StateV::Compute(seq![arg] + env, body))),
        ValueV::Builtin(fun, forces, args) => {
            if forces >= spec_force_count(fun) && args.len() < spec_arity(fun) {
                if args.len() + 1 == spec_arity(fun) {
                    after_call(machine_call(a, costs, semantics, fun, args.push(arg)), stack)
                } else {
                    (a, stack, Ok(StateV::Return(ValueV::Builtin(fun, forces, args.push(arg)))))
                }
            } else {
                (a, stack, Err(MachineError::UnexpectedBuiltinTermArgument))
            }
        },
        _ => (a, stack, Err(MachineError::NonFunctionApplication)),
    }
}

/// Forcing the value `v`.
pub open spec fn force_evaluate(
    a: Acct,
    costs: CostModel,
    semantics: BuiltinSemantics,
    stack: Seq<FrameV>,
    v: ValueV,
) -> Transition {
    match v {
        ValueV::Delay(body, env) => (a, stack, Ok(StateV::Compute(env, body))),
        ValueV::Builtin(fun, forces, args) => {
            if forces < spec_force_count(fun) {
                if args.len() == spec_arity(fun) {
                    after_call(machine_call(a, costs, semantics, fun, args), stack)
                } else {
                    (a, stack, Ok(StateV::Return(ValueV::Builtin(fun, forces + 1, args))))
                }
            } else {
                (a, stack, Err(MachineError::BuiltinTermArgumentExpected))
            }
        },
        _ => (a, stack, Err(MachineError::NonPolymorphicInstantiation)),
    }
}

/// A case analysis on the constant `c`: booleans take the first branch for
/// false and the second for true, unit takes the only branch, an integer
/// picks its branch by number, a non-empty list takes the first branch
/// with its head and tail as arguments and an empty one the second, and a
/// pair takes the only branch with both components as arguments.
pub open spec fn case_on_constant(
    stack: Seq<FrameV>,
    c: ConstantV,
    env: Seq<ValueV>,
    branches: Seq<TermV>,
) -> (Seq<FrameV>, Result<StateV, MachineError>) {
    let refused = (stack, Err(MachineError::NonConstrScrutinized));
    match c {
        ConstantV::Boolean(b) => {
            if (!b && (branches.len() == 1 || branches.len() == 2)) || (b && branches.len() == 2) {
                (stack, Ok(StateV::Compute(env, branches[if b { 1int } else { 0int }])))
            } else {
                refused
            }
        },
        ConstantV::Unit => {
            if branches.len() == 1 {
                (stack, Ok(StateV::Compute(env, branches[0])))
            } else {
                refused
            }
        },
        ConstantV::Integer(i) => {
            if 0 <= i < branches.len() {
                (stack, Ok(StateV::Compute(env, branches[i])))
            } else {
                refused
            }
        },
        ConstantV::ProtoList(t, items) => {
            if items.len() > 0 && (branches.len() == 1 || branches.len() == 2) {
                (
                    transfer(
                        stack,
                        seq![
                            ValueV::Con(items[0]),
                            ValueV::Con(ConstantV::ProtoList(t, items.drop_first())),
                        ],
                    ),
                    Ok(StateV::Compute(env, branches[0])),
                )
            } else if items.len() == 0 && branches.len() == 2 {
                (stack, Ok(StateV::Compute(env, branches[1])))
            } else {
                refused
            }
        },
        ConstantV::ProtoPair(_, _, fst, snd) => {
            if branches.len() == 1 {
                (
                    transfer(stack, seq![ValueV::Con(*fst), ValueV::Con(*snd)]),
                    Ok(StateV::Compute(env, branches[0])),
                )
            } else {
                refused
            }
        },
        _ => refused,
    }
}

/// A case analysis on the value `v` with `branches`.
pub open spec fn case_evaluate(
    stack: Seq<FrameV>,
    env: Seq<ValueV>,
    branches: Seq<TermV>,
    v: ValueV,
) -> (Seq<FrameV>, Result<StateV, MachineError>) {
    match v {
        ValueV::Constr(tag, fields) => {
            if tag < branches.len() {
                (transfer(stack, fields), Ok(StateV::Compute(env, branches[tag as int])))
            } else {
                (stack, Err(MachineError::MissingCaseBranch(tag as usize)))
            }
        },
        ValueV::Con(c) => case_on_constant(stack, c, env, branches),
        _ => (stack, Err(MachineError::NonConstrScrutinized)),
    }
}

/// The machine finishing with `v`: the pending steps are charged, and the
/// value is turned back into a term.
pub open spec fn finish(a: Acct, costs: CostModel, stack: Seq<FrameV>, v: ValueV) -> Transition {
    if a.until < SLIPPAGE {
        match flush_from(a, costs.machine_costs, 0) {
            (a1, Some(e)) => (a1, stack, Err(e)),
            (a1, None) => (a1, stack, Ok(StateV::Done(discharge(v)))),
        }
    } else {
        (a, stack, Ok(StateV::Done(discharge(v))))
    }
}

/// One return step: the value `v` to the innermost frame of `stack`.
pub open spec fn spec_return(
    a: Acct,
    costs: CostModel,
    semantics: BuiltinSemantics,
    stack: Seq<FrameV>,
    v: ValueV,
) -> Transition {
    if stack.len() == 0 {
        finish(a, costs, stack, v)
    } else {
        let rest = stack.drop_last();
        match stack.last() {
            FrameV::AwaitFunTerm(env, arg) => (a, rest.push(FrameV::AwaitArg(v)), Ok(StateV::Compute(env, arg))),
            FrameV::AwaitArg(f) => apply_evaluate(a, costs, semantics, rest, f, v),
            FrameV::AwaitArgForLambda(body, env) => (a, rest, Ok(StateV::Compute(seq![v] + env, body))),
            FrameV::AwaitFunValue(arg) => apply_evaluate(a, costs, semantics, rest, v, arg),
            FrameV::Force => force_evaluate(a, costs, semantics, rest, v),
            FrameV::Constr(env, tag, terms, vals) => {
                if terms.len() > 0 {
                    (
                        a,
                        rest.push(FrameV::Constr(env, tag, terms.drop_first(), vals.push(v))),
                        Ok(StateV::Compute(env, terms[0])),
                    )
                } else {
                    (a, rest, Ok(StateV::Return(ValueV::Constr(tag, vals.push(v)))))
                }
            },
            FrameV::Cases(env, branches) => {
                let (s, r) = case_evaluate(rest, env, branches, v);
                (a, s, r)
            },
        }
    }
}

/// A copy of the items of `items` after the first.
fn copy_tail(items: &Vec<Constant>) -> (r: Vec<Constant>)
    requires
        items@.len() > 0,
    ensures
        constants_view(r@) == constants_view(items@).drop_first(),
{
    let mut out: Vec<Constant> = Vec::new();
    let mut i: usize = 1;
    assert(items@.subrange(1, 1) =~= Seq::<Constant>::empty());
    while i < items.len()
        invariant
            1 <= i <= items.len(),
            constants_view(out@) == constants_view(items@.subrange(1, i as int)),
        decreases items.len() - i,
    {
        let c = copy_constant(&items[i]);
        proof {
            lemma_constants_view_push(out@, c);
            lemma_constants_view_push(items@.subrange(1, i as int), items@[i as int]);
            assert(items@.subrange(1, i as int).push(items@[i as int]) =~= items@.subrange(1, i + 1));
        }
        out.push(c);
        i += 1;
    }
    assert(constants_view(items@).drop_first() =~= constants_view(items@.subrange(1, items@.len() as int)));
    out
}

/// Pushes a frame awaiting a function for each of `fields`, the last one
/// first.
fn transfer_arg_stack<'a>(stack: &mut Vec<Frame<'a>>, fields: &Vec<Rc<Value<'a>>>)
    ensures
        stack_view(final(stack)@) == transfer(stack_view(old(stack)@), values_view(fields@)),
{
    let ghost st0 = stack_view(stack@);
    let ghost fv = values_view(fields@);
    proof {
        lemma_values_view_index(fields@);
        assert(fv.subrange(0, fields@.len() as int) =~= fv);
    }
    let mut i: usize = fields.len();
    while i > 0
        invariant
            i <= fields@.len(),
            fv == values_view(fields@),
            fv.len() == fields@.len(),
            forall|j: int| 0 <= j < fields@.len() ==> #[trigger] fv[j] == (*fields@[j])@,
            transfer(st0, fv) == transfer(stack_view(stack@), fv.subrange(0, i as int)),
        decreases i,
    {
        let ghost st = stack_view(stack@);
        let ghost sub = fv.subrange(0, i as int);
        stack.push(Frame::AwaitFunValue(rc_clone(&fields[i - 1])));
        proof {
            assert(stack_view(stack@) =~= st.push(FrameV::AwaitFunValue(sub.last())));
            assert(sub.drop_last() =~= fv.subrange(0, i - 1));
        }
        i -= 1;
    }
    assert(fv.subrange(0, 0) =~= Seq::<ValueV>::empty());
}

impl Machine {
    /// Applies the value `function` to the value `argument`.
    fn apply_evaluate<'a>(
        &mut self,
        stack: &Vec<Frame<'a>>,
        function: Rc<Value<'a>>,
        argument: Rc<Value<'a>>,
    ) -> (r: Result<MachineState<'a>, MachineError>)
        requires
            old(self).inv(),
        ensures
            (final(self).acct(), stack_view(stack@), transition_view(r)) == apply_evaluate(
                old(self).acct(),
                old(self).costs,
                old(self).semantics,
                stack_view(stack@),
                (*function)@,
                (*argument)@,
            ),
            final(self).costs == old(self).costs,
            final(self).semantics == old(self).semantics,
            final(self).slippage == old(self).slippage,
            final(self).inv(),
            r is Ok && makes_progress(old(self).costs) && !exhausted(old(self).ex_budget) ==> progressed(
                old(self).acct(),
                final(self).acct(),
                false,
            ),
    {
        match &*function {
            Value::Lambda { body, env, .. } => Ok(MachineState::Compute(env.push(argument), *body)),
            Value::Builtin(runtime) => {
                proof {
                    lemma_values_view_index(runtime.args@);
                    assert((*function)@ == ValueV::Builtin(runtime.fun, runtime.forces as nat, values_view(runtime.args@)));
                }
                if !runtime.needs_force() && runtime.is_arrow() {
                    let rt = runtime.push(argument);
                    proof {
                        lemma_values_view_push(runtime.args@, argument);
                    }
                    let value = if rt.is_ready() {
                        self.call(&rt)?
                    } else {
                        Rc::new(Value::Builtin(rt))
                    };
                    Ok(MachineState::Return(value))
                } else {
                    Err(MachineError::UnexpectedBuiltinTermArgument)
                }
            },
            _ => Err(MachineError::NonFunctionApplication),
        }
    }

    /// Forces the value `value`.
    fn force_evaluate<'a>(
        &mut self,
        stack: &Vec<Frame<'a>>,
        value: Rc<Value<'a>>,
    ) -> (r: Result<MachineState<'a>, MachineError>)
        requires
            old(self).inv(),
        ensures
            (final(self).acct(), stack_view(stack@), transition_view(r)) == force_evaluate(
                old(self).acct(),
                old(self).costs,
                old(self).semantics,
                stack_view(stack@),
                (*value)@,
            ),
            final(self).costs == old(self).costs,
            final(self).semantics == old(self).semantics,
            final(self).slippage == old(self).slippage,
            final(self).inv(),
            r is Ok && makes_progress(old(self).costs) && !exhausted(old(self).ex_budget) ==> progressed(
                old(self).acct(),
                final(self).acct(),
                false,
            ),
    {
        match &*value {
            Value::Delay(body, env) => Ok(MachineState::Compute(env.share(), *body)),
            Value::Builtin(runtime) => {
                proof {
                    crate::builtin::lemma_counts_bound(runtime.fun);
                    lemma_values_view_index(runtime.args@);
                    assert((*value)@ == ValueV::Builtin(runtime.fun, runtime.forces as nat, values_view(runtime.args@)));
                }
                if runtime.needs_force() {
                    let v = if runtime.is_ready() {
                        self.call(runtime)?
                    } else {
                        Rc::new(Value::Builtin(runtime.force()))
                    };
                    Ok(MachineState::Return(v))
                } else {
                    Err(MachineError::BuiltinTermArgumentExpected)
                }
            },
            _ => Err(MachineError::NonPolymorphicInstantiation),
        }
    }
}

/// A case analysis on the constant `c`.
fn case_on_constant_exec<'a>(
    stack: &mut Vec<Frame<'a>>,
    c: &Constant,
    env: Env<'a>,
    branches: &'a Vec<Term>,
) -> (r: Result<MachineState<'a>, MachineError>)
    ensures
        (stack_view(final(stack)@), transition_view(r)) == case_on_constant(
            stack_view(old(stack)@),
            c@,
            env@,
            terms_view(branches@),
        ),
        r matches Ok(st) ==> st is Compute,
{
    proof {
        lemma_terms_view_index(branches@);
    }
    match c {
        Constant::Boolean(b) => {
            if (!*b && (branches.len() == 1 || branches.len() == 2)) || (*b && branches.len() == 2) {
                let tag: usize = if *b { 1 } else { 0 };
                Ok(MachineState::Compute(env, &branches[tag]))
            } else {
                Err(MachineError::NonConstrScrutinized)
            }
        },
        Constant::Unit => {
            if branches.len() == 1 {
                Ok(MachineState::Compute(env, &branches[0]))
            } else {
                Err(MachineError::NonConstrScrutinized)
            }
        },
        Constant::Integer(i) => {
            let n: usize = branches.len();
            match i.normalize().to_usize() {
                Some(tag) => {
                    if tag < branches.len() {
                        Ok(MachineState::Compute(env, &branches[tag]))
                    } else {
                        Err(MachineError::NonConstrScrutinized)
                    }
                },
                None => Err(MachineError::NonConstrScrutinized),
            }
        },
        Constant::ProtoList(t, items) => {
            if items.len() > 0 && (branches.len() == 1 || branches.len() == 2) {
                let head = Value::con(Rc::new(copy_constant(&items[0])));
                let tail = Value::con(Rc::new(Constant::ProtoList(copy_type(t), copy_tail(items))));
                let fields = vec![head, tail];
                proof {
                    crate::constant::lemma_constants_view_index(items@);
                    lemma_values_view_index(fields@);
                    assert(values_view(fields@) =~= seq![
                        ValueV::Con(constants_view(items@)[0]),
                        ValueV::Con(ConstantV::ProtoList(*t, constants_view(items@).drop_first())),
                    ]);
                }
                transfer_arg_stack(stack, &fields);
                Ok(MachineState::Compute(env, &branches[0]))
            } else if items.len() == 0 && branches.len() == 2 {
                proof {
                    crate::constant::lemma_constants_view_index(items@);
                }
                Ok(MachineState::Compute(env, &branches[1]))
            } else {
                proof {
                    crate::constant::lemma_constants_view_index(items@);
                }
                Err(MachineError::NonConstrScrutinized)
            }
        },
        Constant::ProtoPair(_, _, fst, snd) => {
            if branches.len() == 1 {
                let a = Value::con(Rc::new(copy_constant(&**fst)));
                let b = Value::con(Rc::new(copy_constant(&**snd)));
                let fields = vec![a, b];
                proof {
                    lemma_values_view_index(fields@);
                    assert(values_view(fields@) =~= seq![ValueV::Con((**fst)@), ValueV::Con((**snd)@)]);
                }
                transfer_arg_stack(stack, &fields);
                Ok(MachineState::Compute(env, &branches[0]))
            } else {
                Err(MachineError::NonConstrScrutinized)
            }
        },
        _ => Err(MachineError::NonConstrScrutinized),
    }
}

/// A case analysis on the value `value` with `branches`.
fn case_evaluate_exec<'a>(
    stack: &mut Vec<Frame<'a>>,
    env: Env<'a>,
    branches: &'a Vec<Term>,
    value: Rc<Value<'a>>,
) -> (r: Result<MachineState<'a>, MachineError>)
    ensures
        (stack_view(final(stack)@), transition_view(r)) == case_evaluate(
            stack_view(old(stack)@),
            env@,
            terms_view(branches@),
            (*value)@,
        ),
        r matches Ok(st) ==> st is Compute,
{
    proof {
        lemma_terms_view_index(branches@);
    }
    match &*value {
        Value::Constr(tag, fields) => {
            if *tag < branches.len() {
                transfer_arg_stack(stack, fields);
                Ok(MachineState::Compute(env, &branches[*tag]))
            } else {
                Err(MachineError::MissingCaseBranch(*tag))
            }
        },
        Value::Con(c) => case_on_constant_exec(stack, &**c, env, branches),
        _ => Err(MachineError::NonConstrScrutinized),
    }
}

impl Machine {
    /// One return step: `value` to the innermost frame of `stack`.
    pub fn return_compute<'a>(
        &mut self,
        stack: &mut Vec<Frame<'a>>,
        value: Rc<Value<'a>>,
    ) -> (r: Result<MachineState<'a>, MachineError>)
        requires
            old(self).inv(),
        ensures
            (final(self).acct(), stack_view(final(stack)@), transition_view(r)) == spec_return(
                old(self).acct(),
                old(self).costs,
                old(self).semantics,
                stack_view(old(stack)@),
                (*value)@,
            ),
            final(self).costs == old(self).costs,
            final(self).semantics == old(self).semantics,
            final(self).slippage == old(self).slippage,
            r is Ok ==> final(self).inv(),
            r is Ok && makes_progress(old(self).costs) && !exhausted(old(self).ex_budget) ==> progressed(
                old(self).acct(),
                final(self).acct(),
                false,
            ),
            r matches Ok(MachineState::Return(_)) ==> final(stack)@.len() < old(stack)@.len(),
    {
        let ghost st = stack_view(stack@);
        match stack.pop() {
            None => {
                if self.steps_until_spend < self.slippage {
                    let ghost pre = self.acct();
                    self.spend_unbudgeted_steps()?;
                    proof {
                        super::cek::lemma_flush_ok_zeroes(pre, self.costs.machine_costs);
                        if makes_progress(self.costs) && !exhausted(pre.budget) {
                            super::cek::lemma_flush_charges(pre, self.costs.machine_costs, 0);
                            assert(pre.steps.subrange(0, 9) =~= pre.steps);
                        }
                    }
                }
                let term = value_as_term(&*value);
                Ok(MachineState::Done(term))
            },
            Some(frame) => {
                proof {
                    assert(stack_view(stack@) =~= st.drop_last());
                    assert(frame_view(frame) == st.last());
                }
                match frame {
                    Frame::AwaitFunTerm(env, arg) => {
                        stack.push(Frame::AwaitArg(value));
                        proof {
                            assert(stack_view(stack@) =~= st.drop_last().push(FrameV::AwaitArg((*value)@)));
                        }
                        Ok(MachineState::Compute(env, arg))
                    },
                    Frame::AwaitArg(function) => self.apply_evaluate(stack, function, value),
                    Frame::AwaitArgForLambda(body, env) => Ok(MachineState::Compute(env.push(value), body)),
                    Frame::AwaitFunValue(argument) => self.apply_evaluate(stack, value, argument),
                    Frame::Force => self.force_evaluate(stack, value),
                    Frame::Constr(env, tag, terms, vals) => {
                        let mut vals = vals;
                        proof {
                            lemma_values_view_push(vals@, value);
                        }
                        vals.push(value);
                        if terms.len() > 0 {
                            let rest = vstd::slice::slice_subrange(terms, 1, terms.len());
                            proof {
                                lemma_terms_view_drop_first(terms@);
                            }
                            let ghost before = stack_view(stack@);
                            stack.push(Frame::Constr(env.share(), tag, rest, vals));
                            proof {
                                assert(stack_view(stack@) =~= before.push(frame_view(Frame::Constr(env, tag, rest, vals))));
                            }
                            Ok(MachineState::Compute(env, &terms[0]))
                        } else {
                            proof {
                                lemma_terms_view_index(terms@);
                            }
                            Ok(MachineState::Return(Rc::new(Value::Constr(tag, vals))))
                        }
                    },
                    Frame::Cases(env, branches) => case_evaluate_exec(stack, env, branches, value),
                }
            },
        }
    }
}

} // verus!
