//! How variables find their values: a lambda's parameter is the argument
//! it was applied to, and outer variables are those of its closure.

use vstd::prelude::*;

use crate::builtin::BuiltinSemantics;
use crate::cost_model::builtin_costs::CostModel;
use crate::term::TermV;

use super::cek::{counted, spec_compute, Acct, FrameV, StateV};
use super::continuation::apply_evaluate;
use super::error::MachineError;
use super::value::ValueV;

verus! {

/// Applying a lambda closure to `arg` computes its body in an environment
/// where variable 1 (the lambda's own parameter) is `arg` and variable
/// `i + 1` is variable `i` of the closure's environment; an index past
/// those is an open-term error.
pub proof fn lemma_variable_refers_to_binding(
    a: Acct,
    b: Acct,
    costs: CostModel,
    semantics: BuiltinSemantics,
    stack: Seq<FrameV>,
    p: nat,
    body: TermV,
    env: Seq<ValueV>,
    arg: ValueV,
    i: nat,
)
    requires
        counted(b, costs.machine_costs, 1).1 is None,
    ensures
        apply_evaluate(a, costs, semantics, stack, ValueV::Lambda(p, body, env), arg) matches (
            _,
            _,
            Ok(StateV::Compute(e, t)),
        ) && t == body && spec_compute(b, costs, semantics, stack, e, TermV::Var(1)).2 == Ok::<StateV, MachineError>(
            StateV::Return(arg),
        ) && (1 <= i <= env.len() ==> spec_compute(b, costs, semantics, stack, e, TermV::Var(i + 1)).2 == Ok::<
            StateV,
            MachineError,
        >(StateV::Return(env[i - 1]))) && (i > env.len() ==> spec_compute(
            b,
            costs,
            semantics,
            stack,
            e,
            TermV::Var(i + 1),
        ).2 is Err),
{
    let e = seq![arg] + env;
    assert(e[0] == arg);
    if 1 <= i <= env.len() {
        assert(e[i as int] == env[i - 1]);
    }
}

} // verus!
