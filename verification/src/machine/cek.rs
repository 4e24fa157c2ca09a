//! The CEK machine: its state, its budget accounting and its steps.

use std::rc::Rc;

use vstd::prelude::*;

use crate::builtin::{spec_arity, spec_force_count, BuiltinSemantics, DefaultFunction};
use crate::constant::{constants_view, Constant, ConstantV};
use crate::cost_model::builtin_costs::CostModel;
use crate::cost_model::ex_budget::ExBudget;
use crate::cost_model::machine_costs::{MachineCosts, StepKind};
use crate::cost_model::saturating::{clamp_i64, saturating_sub_i64};
use crate::term::{lemma_terms_view_drop_first, lemma_terms_view_index, terms_view, Term, TermV};

use super::discharge::{discharge, value_as_term};
use super::error::MachineError;
use super::runtime::{call_builtin, is_supported, outcome_view, Outcome};
use super::semantics::{call_supported, spec_call, CallOutcome};
use super::value::{
    copy_values, env_view, lemma_values_view_index, lemma_values_view_push, rc_clone,
    values_view, Env, Runtime, Value, ValueV,
};

verus! {

/// The number of steps charged together.
pub const SLIPPAGE: u8 = 200;

/// The budget accounting of a machine: the budget left, the steps of each
/// kind not yet charged, how many steps remain before they are, and the
/// lines traced.
pub struct Acct {
    pub budget: ExBudget,
    pub steps: Seq<u8>,
    pub until: u8,
    pub logs: Seq<Seq<char>>,
}

/// The sum of a sequence of counts.
pub open spec fn seq_sum(s: Seq<u8>) -> int
    decreases s.len(),
{
    if s.len() == 0 {
        0
    } else {
        seq_sum(s.drop_last()) + s.last()
    }
}

/// The budget after spending `c`; both components saturate.
pub open spec fn spent(b: ExBudget, c: ExBudget) -> ExBudget {
    ExBudget { mem: clamp_i64(b.mem - c.mem), cpu: clamp_i64(b.cpu - c.cpu) }
}

/// Whether a budget is exhausted.
pub open spec fn exhausted(b: ExBudget) -> bool {
    b.mem < 0 || b.cpu < 0
}

/// Charges the pending steps of kinds `k` and later, in order; stops at
/// the first charge that exhausts the budget.
pub open spec fn flush_from(a: Acct, costs: MachineCosts, k: nat) -> (Acct, Option<MachineError>)
    decreases 9 - k,
{
    if k >= 9 {
        (Acct { until: SLIPPAGE, ..a }, None)
    } else {
        let c = ExBudget::spec_scaled(costs.0@[k as int], a.steps[k as int] as i64);
        let b = spent(a.budget, c);
        if exhausted(b) {
            (Acct { budget: b, ..a }, Some(MachineError::OutOfExError(b)))
        } else {
            flush_from(Acct { budget: b, steps: a.steps.update(k as int, 0), ..a }, costs, k + 1)
        }
    }
}

/// Counts one step of kind `k`, and charges the pending steps when a batch
/// is complete.
pub open spec fn counted(a: Acct, costs: MachineCosts, k: nat) -> (Acct, Option<MachineError>) {
    let a1 = Acct {
        steps: a.steps.update(k as int, (a.steps[k as int] + 1) as u8),
        until: (a.until - 1) as u8,
        ..a
    };
    if a1.until == 0 {
        flush_from(a1, costs, 0)
    } else {
        (a1, None)
    }
}

/// How far the machine is from running out: the CPU budget left and the
/// steps left in the batch. Every counted step lowers it where every step
/// costs CPU.
pub open spec fn measure(a: Acct) -> int {
    a.budget.cpu + a.until
}

/// Whether every step costs some CPU and no built-in call gives CPU back:
/// then evaluation ends, with a result or by running out of budget.
pub open spec fn makes_progress(costs: CostModel) -> bool {
    &&& forall|i: int| 0 <= i < 9 ==> #[trigger] costs.machine_costs.0@[i].cpu >= 1
    &&& forall|f: DefaultFunction, s: Seq<i64>| #[trigger] costs.builtin_costs.spec_cost(f, s).cpu >= 0
}

/// Whether the accounting went from `a` to `b` with budget left, and with
/// the measure lower (when `strict`) or no higher.
pub open spec fn progressed(a: Acct, b: Acct, strict: bool) -> bool {
    &&& !exhausted(b.budget)
    &&& if strict {
        measure(b) < measure(a)
    } else {
        measure(b) <= measure(a)
    }
}

/// The accounting of a new machine with budget `b`: nothing pending and a
/// whole batch to go.
pub open spec fn fresh_acct(b: ExBudget) -> Acct {
    Acct { budget: b, steps: Seq::new(9, |i: int| 0u8), until: SLIPPAGE, logs: Seq::empty() }
}

/// The CEK machine.
pub struct Machine {
    /// The budget left.
    pub ex_budget: ExBudget,
    /// The steps of each kind counted but not yet charged.
    pub unbudgeted_steps: [u8; 9],
    /// The steps left before the pending ones are charged.
    pub steps_until_spend: u8,
    /// What steps and built-in calls cost.
    pub costs: CostModel,
    /// The number of steps charged together.
    pub slippage: u8,
    /// The lines traced so far.
    pub logs: Vec<String>,
    /// Which variant of built-in behaviour applies.
    pub semantics: BuiltinSemantics,
}

impl Machine {
    /// The accounting part of the machine.
    pub open spec fn acct(&self) -> Acct {
        Acct {
            budget: self.ex_budget,
            steps: self.unbudgeted_steps@,
            until: self.steps_until_spend,
            logs: self.logs@.map_values(|l: String| l@),
        }
    }

    /// Whether the state is consistent: the pending steps and the steps
    /// left make up a batch, and the cost model is complete.
    pub open spec fn inv(&self) -> bool {
        &&& self.slippage == SLIPPAGE
        &&& self.unbudgeted_steps@.len() == 9
        &&& 1 <= self.steps_until_spend <= SLIPPAGE
        &&& seq_sum(self.unbudgeted_steps@) + self.steps_until_spend == SLIPPAGE
        &&& self.costs.wf()
    }

    /// A machine with `initial_budget`, charging by `costs`.
    pub fn new(initial_budget: ExBudget, costs: CostModel, semantics: BuiltinSemantics) -> (r: Machine)
        requires
            costs.wf(),
        ensures
            r.inv(),
            r.ex_budget == initial_budget,
            r.costs == costs,
            r.semantics == semantics,
            r.logs@.len() == 0,
            r.acct() == fresh_acct(initial_budget),
    {
        let m = Machine {
            ex_budget: initial_budget,
            unbudgeted_steps: [0; 9],
            steps_until_spend: SLIPPAGE,
            costs,
            slippage: SLIPPAGE,
            logs: Vec::new(),
            semantics,
        };
        proof {
            lemma_seq_sum_zero(m.unbudgeted_steps@);
            assert(m.unbudgeted_steps@ =~= Seq::new(9, |i: int| 0u8));
            assert(m.logs@.map_values(|l: String| l@) =~= Seq::<Seq<char>>::empty());
        }
        m
    }

    /// The budget left.
    pub fn remaining_budget(&self) -> (r: ExBudget)
        ensures
            r == self.ex_budget,
    {
        self.ex_budget
    }

    /// Spends `spend` from the budget; fails when the budget is exhausted.
    pub fn spend_budget(&mut self, spend: ExBudget) -> (r: Result<(), MachineError>)
        ensures
            final(self).ex_budget == spent(old(self).ex_budget, spend),
            exhausted(final(self).ex_budget) ==> r == Err::<(), MachineError>(MachineError::OutOfExError(final(self).ex_budget)),
            !exhausted(final(self).ex_budget) ==> r is Ok,
            final(self).unbudgeted_steps == old(self).unbudgeted_steps,
            final(self).steps_until_spend == old(self).steps_until_spend,
            final(self).costs == old(self).costs,
            final(self).slippage == old(self).slippage,
            final(self).logs == old(self).logs,
            final(self).semantics == old(self).semantics,
    {
        self.ex_budget.mem = saturating_sub_i64(self.ex_budget.mem, spend.mem);
        self.ex_budget.cpu = saturating_sub_i64(self.ex_budget.cpu, spend.cpu);
        if self.ex_budget.mem < 0 || self.ex_budget.cpu < 0 {
            Err(MachineError::OutOfExError(self.ex_budget))
        } else {
            Ok(())
        }
    }
}

/// A sequence of zeros sums to zero.
proof fn lemma_seq_sum_zero(s: Seq<u8>)
    requires
        forall|i: int| 0 <= i < s.len() ==> s[i] == 0,
    ensures
        seq_sum(s) == 0,
    decreases s.len(),
{
    if s.len() > 0 {
        lemma_seq_sum_zero(s.drop_last());
    }
}

impl Machine {
    /// Charges every pending step, kind by kind, and starts a new batch.
    pub fn spend_unbudgeted_steps(&mut self) -> (r: Result<(), MachineError>)
        requires
            old(self).unbudgeted_steps@.len() == 9,
            old(self).slippage == SLIPPAGE,
        ensures
            (final(self).acct(), if r is Ok { None } else { Some(r->Err_0) }) == flush_from(
                old(self).acct(),
                old(self).costs.machine_costs,
                0,
            ),
            final(self).costs == old(self).costs,
            final(self).slippage == old(self).slippage,
            final(self).logs == old(self).logs,
            final(self).semantics == old(self).semantics,
    {
        let ghost start = self.acct();
        let mut k: usize = 0;
        while k < 9
            invariant
                k <= 9,
                start == old(self).acct(),
                self.unbudgeted_steps@.len() == 9,
                self.slippage == old(self).slippage,
                self.costs == old(self).costs,
                self.logs == old(self).logs,
                self.semantics == old(self).semantics,
                flush_from(start, old(self).costs.machine_costs, 0) == flush_from(self.acct(), self.costs.machine_costs, k as nat),
            decreases 9 - k,
        {
            let ghost cur = self.acct();
            let mut unspent = self.costs.machine_costs.get(k);
            unspent.occurrences(self.unbudgeted_steps[k] as i64);
            proof {
                assert(unspent == ExBudget::spec_scaled(self.costs.machine_costs.0@[k as int], cur.steps[k as int] as i64));
            }
            let r = self.spend_budget(unspent);
            if r.is_err() {
                proof {
                    assert(self.acct() == Acct { budget: spent(cur.budget, unspent), ..cur });
                    assert(flush_from(cur, self.costs.machine_costs, k as nat) == (
                        Acct { budget: spent(cur.budget, unspent), ..cur },
                        Some(MachineError::OutOfExError(spent(cur.budget, unspent))),
                    ));
                }
                return r;
            }
            self.unbudgeted_steps[k] = 0;
            proof {
                assert(self.acct() == Acct { budget: spent(cur.budget, unspent), steps: cur.steps.update(k as int, 0), ..cur });
            }
            k += 1;
        }
        self.steps_until_spend = self.slippage;
        Ok(())
    }

    /// Counts one step of kind `step`, charging the batch when it is
    /// complete.
    pub fn step_and_maybe_spend(&mut self, step: StepKind) -> (r: Result<(), MachineError>)
        requires
            old(self).inv(),
        ensures
            (final(self).acct(), if r is Ok { None } else { Some(r->Err_0) }) == counted(
                old(self).acct(),
                old(self).costs.machine_costs,
                step.spec_index() as nat,
            ),
            final(self).costs == old(self).costs,
            final(self).slippage == old(self).slippage,
            final(self).logs == old(self).logs,
            final(self).semantics == old(self).semantics,
            r is Ok ==> final(self).inv(),
            r is Ok && makes_progress(old(self).costs) && !exhausted(old(self).ex_budget) ==> progressed(
                old(self).acct(),
                final(self).acct(),
                true,
            ),
    {
        let k = step.index();
        proof {
            lemma_seq_sum_le(self.unbudgeted_steps@, k as int);
        }
        self.unbudgeted_steps[k] = self.unbudgeted_steps[k] + 1;
        self.steps_until_spend = self.steps_until_spend - 1;
        proof {
            lemma_seq_sum_update(old(self).unbudgeted_steps@, k as int, self.unbudgeted_steps[k as int]);
        }
        if self.steps_until_spend == 0 {
            let ghost pre = self.acct();
            let r = self.spend_unbudgeted_steps();
            proof {
                lemma_flush_ok_zeroes(pre, old(self).costs.machine_costs);
                if makes_progress(old(self).costs) && !exhausted(old(self).ex_budget) {
                    lemma_flush_charges(pre, old(self).costs.machine_costs, 0);
                    assert(pre.steps.subrange(0, 9) =~= pre.steps);
                }
            }
            return r;
        }
        Ok(())
    }
}

/// One count is at most the sum.
proof fn lemma_seq_sum_le(s: Seq<u8>, k: int)
    requires
        0 <= k < s.len(),
    ensures
        s[k] <= seq_sum(s),
        seq_sum(s) >= 0,
    decreases s.len(),
{
    if k < s.len() - 1 {
        lemma_seq_sum_le(s.drop_last(), k);
    } else {
        lemma_seq_sum_nonneg(s.drop_last());
    }
}

/// Sums of counts are not negative.
proof fn lemma_seq_sum_nonneg(s: Seq<u8>)
    ensures
        seq_sum(s) >= 0,
    decreases s.len(),
{
    if s.len() > 0 {
        lemma_seq_sum_nonneg(s.drop_last());
    }
}

/// Updating one count changes the sum by the difference.
proof fn lemma_seq_sum_update(s: Seq<u8>, k: int, x: u8)
    requires
        0 <= k < s.len(),
    ensures
        seq_sum(s.update(k, x)) == seq_sum(s) - s[k] + x,
    decreases s.len(),
{
    if k < s.len() - 1 {
        lemma_seq_sum_update(s.drop_last(), k, x);
        assert(s.update(k, x).drop_last() =~= s.drop_last().update(k, x));
    } else {
        assert(s.update(k, x).drop_last() =~= s.drop_last());
    }
}

/// A successful charge of every pending step leaves none pending and a
/// whole batch to go.
pub proof fn lemma_flush_ok_zeroes(a: Acct, costs: MachineCosts)
    requires
        a.steps.len() == 9,
    ensures
        flush_from(a, costs, 0).1 is None ==> flush_from(a, costs, 0).0.until == SLIPPAGE
            && flush_from(a, costs, 0).0.steps.len() == 9
            && seq_sum(flush_from(a, costs, 0).0.steps) == 0,
{
    lemma_flush_from_shape(a, costs, 0);
}

/// What a successful charge from kind `k` on leaves.
proof fn lemma_flush_from_shape(a: Acct, costs: MachineCosts, k: nat)
    requires
        a.steps.len() == 9,
        k <= 9,
        forall|j: int| 0 <= j < k ==> a.steps[j] == 0,
    ensures
        flush_from(a, costs, k).1 is None ==> flush_from(a, costs, k).0.until == SLIPPAGE
            && flush_from(a, costs, k).0.steps.len() == 9
            && seq_sum(flush_from(a, costs, k).0.steps) == 0,
    decreases 9 - k,
{
    if k >= 9 {
        lemma_seq_sum_zero(a.steps);
    } else {
        let c = ExBudget::spec_scaled(costs.0@[k as int], a.steps[k as int] as i64);
        let b = spent(a.budget, c);
        if !exhausted(b) {
            lemma_flush_from_shape(Acct { budget: b, steps: a.steps.update(k as int, 0), ..a }, costs, k + 1);
        }
    }
}

/// The sum of a non-empty sequence is its first count plus the sum of the
/// rest.
proof fn lemma_seq_sum_first(s: Seq<u8>)
    requires
        s.len() > 0,
    ensures
        seq_sum(s) == s[0] + seq_sum(s.drop_first()),
    decreases s.len(),
{
    if s.len() == 1 {
        assert(s.drop_last() =~= Seq::<u8>::empty());
        assert(s.drop_first() =~= Seq::<u8>::empty());
    } else {
        lemma_seq_sum_first(s.drop_last());
        assert(s.drop_first().drop_last() =~= s.drop_last().drop_first());
    }
}

/// Charging from kind `k` on, when it succeeds, leaves budget and lowers
/// the CPU budget by at least the number of steps charged, where every
/// step costs CPU.
pub proof fn lemma_flush_charges(a: Acct, costs: MachineCosts, k: nat)
    requires
        a.steps.len() == 9,
        k <= 9,
        forall|i: int| 0 <= i < 9 ==> #[trigger] costs.0@[i].cpu >= 1,
        !exhausted(a.budget),
    ensures
        flush_from(a, costs, k).1 is None ==> !exhausted(flush_from(a, costs, k).0.budget)
            && flush_from(a, costs, k).0.budget.cpu <= a.budget.cpu - seq_sum(a.steps.subrange(k as int, 9)),
    decreases 9 - k,
{
    if k >= 9 {
        assert(a.steps.subrange(k as int, 9) =~= Seq::<u8>::empty());
    } else {
        let n = a.steps[k as int];
        let unit = costs.0@[k as int].cpu;
        let c = ExBudget::spec_scaled(costs.0@[k as int], n as i64);
        let b = spent(a.budget, c);
        assert(unit * n >= n) by (nonlinear_arith)
            requires
                unit >= 1,
                n >= 0,
        ;
        assert(c.cpu >= n);
        if !exhausted(b) {
            let a2 = Acct { budget: b, steps: a.steps.update(k as int, 0), ..a };
            lemma_flush_charges(a2, costs, k + 1);
            assert(a2.steps.subrange(k + 1int, 9int) =~= a.steps.subrange(k + 1int, 9int));
            lemma_seq_sum_first(a.steps.subrange(k as int, 9));
            assert(a.steps.subrange(k as int, 9).drop_first() =~= a.steps.subrange(k + 1int, 9int));
        }
    }
}

/// A continuation frame.
pub enum Frame<'a> {
    /// Awaiting the argument for this function value.
    AwaitArg(Rc<Value<'a>>),
    /// Awaiting the function; then this argument term is computed.
    AwaitFunTerm(Env<'a>, &'a Term),
    /// Awaiting a function to apply to this argument value.
    AwaitFunValue(Rc<Value<'a>>),
    /// Awaiting a value to force.
    Force,
    /// Awaiting the argument of a lambda applied directly.
    AwaitArgForLambda(&'a Term, Env<'a>),
    /// Computing the fields of a constructor: the fields still to compute,
    /// and the values computed so far.
    Constr(Env<'a>, usize, &'a [Term], Vec<Rc<Value<'a>>>),
    /// Awaiting the scrutinee of a case analysis over these branches.
    Cases(Env<'a>, &'a Vec<Term>),
}

/// The mathematical value of a [`Frame`].
pub enum FrameV {
    AwaitArg(ValueV),
    AwaitFunTerm(Seq<ValueV>, TermV),
    AwaitFunValue(ValueV),
    Force,
    AwaitArgForLambda(TermV, Seq<ValueV>),
    Constr(Seq<ValueV>, nat, Seq<TermV>, Seq<ValueV>),
    Cases(Seq<ValueV>, Seq<TermV>),
}

/// The value of a frame.
pub open spec fn frame_view(f: Frame) -> FrameV {
    match f {
        Frame::AwaitArg(v) => FrameV::AwaitArg((*v)@),
        Frame::AwaitFunTerm(env, t) => FrameV::AwaitFunTerm(env@, t@),
        Frame::AwaitFunValue(v) => FrameV::AwaitFunValue((*v)@),
        Frame::Force => FrameV::Force,
        Frame::AwaitArgForLambda(t, env) => FrameV::AwaitArgForLambda(t@, env@),
        Frame::Constr(env, tag, fields, vals) => FrameV::Constr(
            env@,
            tag as nat,
            terms_view(fields@),
            values_view(vals@),
        ),
        Frame::Cases(env, branches) => FrameV::Cases(env@, terms_view(branches@)),
    }
}

/// The values of a stack of frames, bottom first.
pub open spec fn stack_view(s: Seq<Frame>) -> Seq<FrameV> {
    Seq::new(s.len(), |i: int| frame_view(s[i]))
}

/// A state of the machine.
pub enum MachineState<'a> {
    /// Returning a value to the innermost frame.
    Return(Rc<Value<'a>>),
    /// Computing a term in an environment.
    Compute(Env<'a>, &'a Term),
    /// Finished with this term.
    Done(Term),
}

/// The mathematical value of a [`MachineState`].
pub enum StateV {
    Return(ValueV),
    Compute(Seq<ValueV>, TermV),
    Done(TermV),
}

/// The value of a state.
pub open spec fn state_view(s: MachineState) -> StateV {
    match s {
        MachineState::Return(v) => StateV::Return((*v)@),
        MachineState::Compute(env, t) => StateV::Compute(env@, t@),
        MachineState::Done(t) => StateV::Done(t@),
    }
}

/// The value of the result of a transition.
pub open spec fn transition_view(r: Result<MachineState, MachineError>) -> Result<StateV, MachineError> {
    match r {
        Ok(s) => Ok(state_view(s)),
        Err(e) => Err(e),
    }
}

/// What a transition leaves: the accounting, the stack and the next state
/// or the error.
pub type Transition = (Acct, Seq<FrameV>, Result<StateV, MachineError>);

/// The lines traced after a call of `f` on `args` that gave `r`: a
/// successful `trace` adds its message.
pub open spec fn traced(
    logs: Seq<Seq<char>>,
    f: DefaultFunction,
    args: Seq<ValueV>,
    r: Result<ValueV, MachineError>,
) -> Seq<Seq<char>> {
    if f == DefaultFunction::Trace && r is Ok {
        match super::semantics::as_string(args[0]) {
            Ok(s) => logs.push(s),
            Err(_) => logs,
        }
    } else {
        logs
    }
}

/// Calls a built-in and charges what it costs.
#[verifier::opaque]
pub open spec fn machine_call(
    a: Acct,
    costs: CostModel,
    semantics: BuiltinSemantics,
    f: DefaultFunction,
    args: Seq<ValueV>,
) -> (Acct, Result<ValueV, MachineError>) {
    if !call_supported(f) {
        (a, Err(MachineError::UnimplementedBuiltin))
    } else {
        match spec_call(f, args, semantics, costs.builtin_costs) {
            CallOutcome::Failed(e) => (a, Err(e)),
            CallOutcome::Charged(c, r) => {
                let b = spent(a.budget, c);
                if exhausted(b) {
                    (Acct { budget: b, ..a }, Err(MachineError::OutOfExError(b)))
                } else {
                    (Acct { budget: b, logs: traced(a.logs, f, args, r), ..a }, r)
                }
            },
            CallOutcome::Uncharged(r) => (a, r),
        }
    }
}

/// The state after a built-in call: the value returned, or the error.
pub open spec fn after_call(c: (Acct, Result<ValueV, MachineError>), stack: Seq<FrameV>) -> Transition {
    match c.1 {
        Ok(v) => (c.0, stack, Ok(StateV::Return(v))),
        Err(e) => (c.0, stack, Err(e)),
    }
}

/// The transition of a step that counts as `k`, then continues with `next`
/// unless charging failed.
pub open spec fn after_step(
    a: Acct,
    costs: CostModel,
    k: nat,
    stack: Seq<FrameV>,
    next: spec_fn(Acct) -> Transition,
) -> Transition {
    match counted(a, costs.machine_costs, k) {
        (a1, Some(e)) => (a1, stack, Err(e)),
        (a1, None) => next(a1),
    }
}

/// Forcing a built-in term directly: the built-in forced once, and called
/// when it then has all its arguments.
pub open spec fn force_builtin_once(
    a: Acct,
    costs: CostModel,
    semantics: BuiltinSemantics,
    stack: Seq<FrameV>,
    f: DefaultFunction,
) -> Transition {
    if spec_arity(f) == 0 {
        after_call(machine_call(a, costs, semantics, f, Seq::empty()), stack)
    } else {
        (a, stack, Ok(StateV::Return(ValueV::Builtin(f, 1, Seq::empty()))))
    }
}

/// Forcing a built-in term twice directly.
pub open spec fn force_builtin_twice(
    a: Acct,
    costs: CostModel,
    semantics: BuiltinSemantics,
    stack: Seq<FrameV>,
    f: DefaultFunction,
) -> Transition {
    if spec_arity(f) == 0 {
        after_call(machine_call(a, costs, semantics, f, Seq::empty()), stack)
    } else {
        (a, stack, Ok(StateV::Return(ValueV::Builtin(f, 2, Seq::empty()))))
    }
}

/// Applying a lambda term directly: one more lambda step, then the
/// argument is computed.
pub open spec fn apply_lambda_directly(
    a: Acct,
    costs: CostModel,
    stack: Seq<FrameV>,
    env: Seq<ValueV>,
    body: TermV,
    arg: TermV,
) -> Transition {
    after_step(a, costs, 2, stack, |a2: Acct|
        (a2, stack.push(FrameV::AwaitArgForLambda(body, env)), Ok(StateV::Compute(env, arg))))
}

/// Applying `f` to `arg`, after the apply step: a lambda term is applied
/// directly; otherwise `f` is computed first.
pub open spec fn apply_after_step(
    a1: Acct,
    costs: CostModel,
    stack: Seq<FrameV>,
    env: Seq<ValueV>,
    f: TermV,
    arg: TermV,
) -> Transition {
    match f {
        TermV::Lambda(_, body) => apply_lambda_directly(a1, costs, stack, env, *body, arg),
        _ => (a1, stack.push(FrameV::AwaitFunTerm(env, arg)), Ok(StateV::Compute(env, f))),
    }
}

/// Forcing a built-in term: one built-in step, then the forced built-in,
/// unless it takes no force.
pub open spec fn force_builtin_directly(
    a: Acct,
    costs: CostModel,
    semantics: BuiltinSemantics,
    stack: Seq<FrameV>,
    env: Seq<ValueV>,
    f: DefaultFunction,
) -> Transition {
    after_step(a, costs, 6, stack, |a2: Acct|
        if 0 < spec_force_count(f) {
            force_builtin_once(a2, costs, semantics, stack, f)
        } else {
            (a2, stack.push(FrameV::Force), Ok(StateV::Compute(env, TermV::Builtin(f))))
        })
}

/// Forcing a forced built-in term, after its first force step: one
/// built-in step, then the twice-forced built-in, unless it takes fewer
/// forces.
pub open spec fn force_builtin_twice_directly(
    a: Acct,
    costs: CostModel,
    semantics: BuiltinSemantics,
    stack: Seq<FrameV>,
    env: Seq<ValueV>,
    f: DefaultFunction,
) -> Transition {
    after_step(a, costs, 6, stack, |a3: Acct|
        if 1 < spec_force_count(f) {
            force_builtin_twice(a3, costs, semantics, stack, f)
        } else {
            (
                a3,
                stack.push(FrameV::Force),
                Ok(StateV::Compute(env, TermV::Force(Box::new(TermV::Builtin(f))))),
            )
        })
}

/// Forcing `b`, after the force step.
pub open spec fn force_after_step(
    a1: Acct,
    costs: CostModel,
    semantics: BuiltinSemantics,
    stack: Seq<FrameV>,
    env: Seq<ValueV>,
    b: TermV,
) -> Transition {
    match b {
        TermV::Delay(inner) => force_delay_directly(a1, costs, stack, env, *inner),
        TermV::Builtin(f) => force_builtin_directly(a1, costs, semantics, stack, env, f),
        TermV::Force(inner) => match *inner {
            TermV::Builtin(f) => force_forced_builtin_directly(a1, costs, semantics, stack, env, f),
            _ => (a1, stack.push(FrameV::Force), Ok(StateV::Compute(env, b))),
        },
        _ => (a1, stack.push(FrameV::Force), Ok(StateV::Compute(env, b))),
    }
}

/// Forcing a delay term directly: one delay step, then its body.
pub open spec fn force_delay_directly(
    a: Acct,
    costs: CostModel,
    stack: Seq<FrameV>,
    env: Seq<ValueV>,
    inner: TermV,
) -> Transition {
    after_step(a, costs, 4, stack, |a2: Acct| (a2, stack, Ok(StateV::Compute(env, inner))))
}

/// Forcing a forced built-in term directly: one more force step, then the
/// rest.
pub open spec fn force_forced_builtin_directly(
    a: Acct,
    costs: CostModel,
    semantics: BuiltinSemantics,
    stack: Seq<FrameV>,
    env: Seq<ValueV>,
    f: DefaultFunction,
) -> Transition {
    after_step(a, costs, 5, stack, |a2: Acct|
        force_builtin_twice_directly(a2, costs, semantics, stack, env, f))
}

/// One compute step: the term `t` in environment `env`.
pub open spec fn spec_compute(
    a: Acct,
    costs: CostModel,
    semantics: BuiltinSemantics,
    stack: Seq<FrameV>,
    env: Seq<ValueV>,
    t: TermV,
) -> Transition {
    match t {
        TermV::Var(i) => after_step(a, costs, 1, stack, |a1: Acct|
            if 1 <= i <= env.len() {
                (a1, stack, Ok(StateV::Return(env[i - 1])))
            } else {
                (a1, stack, Err(MachineError::OpenTermEvaluated(i as usize)))
            }),
        TermV::Lambda(p, body) => after_step(a, costs, 2, stack, |a1: Acct|
            (a1, stack, Ok(StateV::Return(ValueV::Lambda(p, *body, env))))),
        TermV::Apply(f, arg) => after_step(a, costs, 3, stack, |a1: Acct|
            apply_after_step(a1, costs, stack, env, *f, *arg)),
        TermV::Delay(body) => after_step(a, costs, 4, stack, |a1: Acct|
            (a1, stack, Ok(StateV::Return(ValueV::Delay(*body, env))))),
        TermV::Force(b) => after_step(a, costs, 5, stack, |a1: Acct|
            force_after_step(a1, costs, semantics, stack, env, *b)),
        TermV::Constr(tag, fields) => after_step(a, costs, 7, stack, |a1: Acct|
            if fields.len() > 0 {
                (
                    a1,
                    stack.push(FrameV::Constr(env, tag, fields.subrange(1, fields.len() as int), Seq::empty())),
                    Ok(StateV::Compute(env, fields[0])),
                )
            } else {
                (a1, stack, Ok(StateV::Return(ValueV::Constr(tag, Seq::empty()))))
            }),
        TermV::Case(c, branches) => after_step(a, costs, 8, stack, |a1: Acct|
            (a1, stack.push(FrameV::Cases(env, branches)), Ok(StateV::Compute(env, *c)))),
        TermV::Constant(c) => after_step(a, costs, 0, stack, |a1: Acct|
            (a1, stack, Ok(StateV::Return(ValueV::Con(c))))),
        TermV::Builtin(f) => after_step(a, costs, 6, stack, |a1: Acct|
            (a1, stack, Ok(StateV::Return(ValueV::Builtin(f, 0, Seq::empty()))))),
        TermV::Error => (a, stack, Err(MachineError::ExplicitErrorTerm)),
    }
}

impl Machine {
    /// Calls a built-in that has all its arguments, and charges its cost.
    pub fn call<'a>(&mut self, runtime: &Runtime<'a>) -> (r: Result<Rc<Value<'a>>, MachineError>)
        requires
            old(self).inv(),
            runtime.args@.len() == spec_arity(runtime.fun),
        ensures
            (final(self).acct(), super::runtime::result_view(r)) == machine_call(
                old(self).acct(),
                old(self).costs,
                old(self).semantics,
                runtime.fun,
                values_view(runtime.args@),
            ),
            final(self).costs == old(self).costs,
            final(self).semantics == old(self).semantics,
            final(self).slippage == old(self).slippage,
            final(self).inv(),
            r is Ok && makes_progress(old(self).costs) && !exhausted(old(self).ex_budget) ==> progressed(
                old(self).acct(),
                final(self).acct(),
                false,
            ),
    {
        proof {
            reveal(machine_call);
            if makes_progress(self.costs) {
                super::semantics::lemma_call_charge_nonnegative(
                    runtime.fun,
                    values_view(runtime.args@),
                    self.semantics,
                    self.costs.builtin_costs,
                );
            }
        }
        if !is_supported(runtime.fun) {
            return Err(MachineError::UnimplementedBuiltin);
        }
        match call_builtin(runtime.fun, &runtime.args, self.semantics, &self.costs.builtin_costs) {
            Outcome::Failed(e) => Err(e),
            Outcome::Charged(cost, result) => {
                self.spend_budget(cost)?;
                if runtime.fun == DefaultFunction::Trace && result.is_ok() {
                    proof {
                        lemma_values_view_index(runtime.args@);
                    }
                    match super::runtime::unwrap_string(&*runtime.args[0]) {
                        Ok(line) => {
                            let ghost before = self.logs@;
                            self.logs.push(crate::constant::copy_string(line));
                            proof {
                                assert(self.logs@.map_values(|l: String| l@) =~= before.map_values(
                                    |l: String| l@,
                                ).push(line@));
                            }
                        },
                        Err(_) => {},
                    }
                }
                result
            },
            Outcome::Uncharged(result) => result,
        }
    }

    /// One compute step: the term `term` in environment `env`.
    pub fn compute<'a>(
        &mut self,
        stack: &mut Vec<Frame<'a>>,
        env: Env<'a>,
        term: &'a Term,
    ) -> (r: Result<MachineState<'a>, MachineError>)
        requires
            old(self).inv(),
        ensures
            (final(self).acct(), stack_view(final(stack)@), transition_view(r)) == spec_compute(
                old(self).acct(),
                old(self).costs,
                old(self).semantics,
                stack_view(old(stack)@),
                env@,
                term@,
            ),
            final(self).costs == old(self).costs,
            final(self).semantics == old(self).semantics,
            final(self).slippage == old(self).slippage,
            r is Ok ==> final(self).inv(),
            r is Ok && makes_progress(old(self).costs) && !exhausted(old(self).ex_budget) ==> progressed(
                old(self).acct(),
                final(self).acct(),
                true,
            ),
    {
        match term {
            Term::Apply { .. } => self.compute_apply(stack, env, term),
            Term::Force(_) => self.compute_force(stack, env, term),
            Term::Constr { .. } | Term::Case { .. } => self.compute_constr_or_case(stack, env, term),
            _ => self.compute_leaf(stack, env, term),
        }
    }

    /// A compute step on a term that pushes no frame.
    fn compute_leaf<'a>(
        &mut self,
        stack: &mut Vec<Frame<'a>>,
        env: Env<'a>,
        term: &'a Term,
    ) -> (r: Result<MachineState<'a>, MachineError>)
        requires
            old(self).inv(),
            !(term is Apply || term is Force || term is Constr || term is Case),
        ensures
            (final(self).acct(), stack_view(final(stack)@), transition_view(r)) == spec_compute(
                old(self).acct(),
                old(self).costs,
                old(self).semantics,
                stack_view(old(stack)@),
                env@,
                term@,
            ),
            final(self).costs == old(self).costs,
            final(self).semantics == old(self).semantics,
            final(self).slippage == old(self).slippage,
            r is Ok ==> final(self).inv(),
            r is Ok && makes_progress(old(self).costs) && !exhausted(old(self).ex_budget) ==> progressed(
                old(self).acct(),
                final(self).acct(),
                true,
            ),
    {
        match term {
            Term::Var(name) => {
                self.step_and_maybe_spend(StepKind::Var)?;
                match env.lookup(name.0) {
                    Some(v) => Ok(MachineState::Return(v)),
                    None => Err(MachineError::OpenTermEvaluated(name.0)),
                }
            },
            Term::Lambda { parameter, body } => {
                self.step_and_maybe_spend(StepKind::Lambda)?;
                Ok(MachineState::Return(Rc::new(Value::Lambda { parameter: parameter.0, body: &**body, env })))
            },
            Term::Delay(body) => {
                self.step_and_maybe_spend(StepKind::Delay)?;
                Ok(MachineState::Return(Rc::new(Value::Delay(&**body, env))))
            },
            Term::Constant(c) => {
                self.step_and_maybe_spend(StepKind::Constant)?;
                Ok(MachineState::Return(Rc::new(Value::Con(Rc::new(crate::constant::copy_constant(c))))))
            },
            Term::Builtin(fun) => {
                self.step_and_maybe_spend(StepKind::Builtin)?;
                let runtime = Runtime::new(*fun);
                proof {
                    lemma_values_view_empty(runtime.args@);
                }
                Ok(MachineState::Return(Rc::new(Value::Builtin(runtime))))
            },
            _ => Err(MachineError::ExplicitErrorTerm),
        }
    }

    /// A compute step on an application.
    fn compute_apply<'a>(
        &mut self,
        stack: &mut Vec<Frame<'a>>,
        env: Env<'a>,
        term: &'a Term,
    ) -> (r: Result<MachineState<'a>, MachineError>)
        requires
            old(self).inv(),
            term is Apply,
        ensures
            (final(self).acct(), stack_view(final(stack)@), transition_view(r)) == spec_compute(
                old(self).acct(),
                old(self).costs,
                old(self).semantics,
                stack_view(old(stack)@),
                env@,
                term@,
            ),
            final(self).costs == old(self).costs,
            final(self).semantics == old(self).semantics,
            final(self).slippage == old(self).slippage,
            r is Ok ==> final(self).inv(),
            r is Ok && makes_progress(old(self).costs) && !exhausted(old(self).ex_budget) ==> progressed(
                old(self).acct(),
                final(self).acct(),
                true,
            ),
    {
        let (function, argument) = match term {
            Term::Apply { function, argument } => (&**function, &**argument),
            _ => {
                proof {
                    assert(false);
                }
                return Err(MachineError::ExplicitErrorTerm);
            },
        };
        self.step_and_maybe_spend(StepKind::Apply)?;
        self.apply_after(stack, env, function, argument)
    }

    /// Applying `function` to `argument`, after the apply step.
    fn apply_after<'a>(
        &mut self,
        stack: &mut Vec<Frame<'a>>,
        env: Env<'a>,
        function: &'a Term,
        argument: &'a Term,
    ) -> (r: Result<MachineState<'a>, MachineError>)
        requires
            old(self).inv(),
        ensures
            (final(self).acct(), stack_view(final(stack)@), transition_view(r)) == apply_after_step(
                old(self).acct(),
                old(self).costs,
                stack_view(old(stack)@),
                env@,
                function@,
                argument@,
            ),
            final(self).costs == old(self).costs,
            final(self).semantics == old(self).semantics,
            final(self).slippage == old(self).slippage,
            r is Ok ==> final(self).inv(),
            r is Ok && makes_progress(old(self).costs) && !exhausted(old(self).ex_budget) ==> progressed(
                old(self).acct(),
                final(self).acct(),
                false,
            ),
    {
        let ghost st = stack_view(stack@);
        if let Term::Lambda { body, .. } = function {
            self.step_and_maybe_spend(StepKind::Lambda)?;
            stack.push(Frame::AwaitArgForLambda(&**body, env.share()));
            proof {
                assert(stack_view(stack@) =~= st.push(FrameV::AwaitArgForLambda((**body)@, env@)));
            }
            return Ok(MachineState::Compute(env, argument));
        }
        stack.push(Frame::AwaitFunTerm(env.share(), argument));
        proof {
            assert(stack_view(stack@) =~= st.push(FrameV::AwaitFunTerm(env@, argument@)));
        }
        Ok(MachineState::Compute(env, function))
    }

    /// A compute step on a constructor or a case analysis.
    fn compute_constr_or_case<'a>(
        &mut self,
        stack: &mut Vec<Frame<'a>>,
        env: Env<'a>,
        term: &'a Term,
    ) -> (r: Result<MachineState<'a>, MachineError>)
        requires
            old(self).inv(),
            term is Constr || term is Case,
        ensures
            (final(self).acct(), stack_view(final(stack)@), transition_view(r)) == spec_compute(
                old(self).acct(),
                old(self).costs,
                old(self).semantics,
                stack_view(old(stack)@),
                env@,
                term@,
            ),
            final(self).costs == old(self).costs,
            final(self).semantics == old(self).semantics,
            final(self).slippage == old(self).slippage,
            r is Ok ==> final(self).inv(),
            r is Ok && makes_progress(old(self).costs) && !exhausted(old(self).ex_budget) ==> progressed(
                old(self).acct(),
                final(self).acct(),
                true,
            ),
    {
        let ghost st = stack_view(stack@);
        match term {
            Term::Constr { tag, fields } => {
                self.step_and_maybe_spend(StepKind::Constr)?;
                proof {
                    lemma_terms_view_index(fields@);
                    lemma_values_view_empty(Seq::<Rc<Value<'a>>>::empty());
                }
                if fields.len() > 0 {
                    let rest = vstd::slice::slice_subrange(fields.as_slice(), 1, fields.len());
                    proof {
                        lemma_terms_view_drop_first(fields@);
                    }
                    stack.push(Frame::Constr(env.share(), *tag, rest, Vec::new()));
                    proof {
                        assert(stack_view(stack@) =~= st.push(FrameV::Constr(env@, *tag as nat, terms_view(fields@).subrange(1, fields@.len() as int), Seq::empty())));
                    }
                    Ok(MachineState::Compute(env, &fields[0]))
                } else {
                    Ok(MachineState::Return(Value::constr_empty(*tag)))
                }
            },
            Term::Case { constr, branches } => {
                self.step_and_maybe_spend(StepKind::Case)?;
                stack.push(Frame::Cases(env.share(), branches));
                proof {
                    assert(stack_view(stack@) =~= st.push(FrameV::Cases(env@, terms_view(branches@))));
                }
                Ok(MachineState::Compute(env, &**constr))
            },
            _ => {
                proof {
                    assert(false);
                }
                Err(MachineError::ExplicitErrorTerm)
            },
        }
    }

    /// A compute step on a force.
    fn compute_force<'a>(
        &mut self,
        stack: &mut Vec<Frame<'a>>,
        env: Env<'a>,
        term: &'a Term,
    ) -> (r: Result<MachineState<'a>, MachineError>)
        requires
            old(self).inv(),
            term is Force,
        ensures
            (final(self).acct(), stack_view(final(stack)@), transition_view(r)) == spec_compute(
                old(self).acct(),
                old(self).costs,
                old(self).semantics,
                stack_view(old(stack)@),
                env@,
                term@,
            ),
            final(self).costs == old(self).costs,
            final(self).semantics == old(self).semantics,
            final(self).slippage == old(self).slippage,
            r is Ok ==> final(self).inv(),
            r is Ok && makes_progress(old(self).costs) && !exhausted(old(self).ex_budget) ==> progressed(
                old(self).acct(),
                final(self).acct(),
                true,
            ),
    {
        let body: &'a Term = match term {
            Term::Force(b) => &**b,
            _ => {
                proof {
                    assert(false);
                }
                return Err(MachineError::ExplicitErrorTerm);
            },
        };
        self.step_and_maybe_spend(StepKind::Force)?;
        self.force_after(stack, env, body)
    }

    /// Forcing `body`, after the force step.
    fn force_after<'a>(
        &mut self,
        stack: &mut Vec<Frame<'a>>,
        env: Env<'a>,
        body: &'a Term,
    ) -> (r: Result<MachineState<'a>, MachineError>)
        requires
            old(self).inv(),
        ensures
            (final(self).acct(), stack_view(final(stack)@), transition_view(r)) == force_after_step(
                old(self).acct(),
                old(self).costs,
                old(self).semantics,
                stack_view(old(stack)@),
                env@,
                body@,
            ),
            final(self).costs == old(self).costs,
            final(self).semantics == old(self).semantics,
            final(self).slippage == old(self).slippage,
            r is Ok ==> final(self).inv(),
            r is Ok && makes_progress(old(self).costs) && !exhausted(old(self).ex_budget) ==> progressed(
                old(self).acct(),
                final(self).acct(),
                false,
            ),
    {
        let ghost st = stack_view(stack@);
        if let Term::Delay(inner) = body {
            self.step_and_maybe_spend(StepKind::Delay)?;
            return Ok(MachineState::Compute(env, &**inner));
        }
        if let Term::Builtin(fun) = body {
            return self.force_builtin_term(stack, env, body, *fun);
        }
        if let Term::Force(inner) = body {
            if let Term::Builtin(fun) = &**inner {
                proof {
                    reveal_with_fuel(crate::term::term_view, 2);
                }
                self.step_and_maybe_spend(StepKind::Force)?;
                return self.force_forced_builtin_term(stack, env, body, *fun);
            }
        }
        proof {
            reveal_with_fuel(crate::term::term_view, 2);
        }
        stack.push(Frame::Force);
        proof {
            assert(stack_view(stack@) =~= st.push(FrameV::Force));
        }
        Ok(MachineState::Compute(env, body))
    }

    /// Forcing the built-in term `body`, which is `fun`.
    fn force_builtin_term<'a>(
        &mut self,
        stack: &mut Vec<Frame<'a>>,
        env: Env<'a>,
        body: &'a Term,
        fun: DefaultFunction,
    ) -> (r: Result<MachineState<'a>, MachineError>)
        requires
            old(self).inv(),
            *body == Term::Builtin(fun),
        ensures
            (final(self).acct(), stack_view(final(stack)@), transition_view(r)) == force_builtin_directly(
                old(self).acct(),
                old(self).costs,
                old(self).semantics,
                stack_view(old(stack)@),
                env@,
                fun,
            ),
            final(self).costs == old(self).costs,
            final(self).semantics == old(self).semantics,
            final(self).slippage == old(self).slippage,
            r is Ok ==> final(self).inv(),
            r is Ok && makes_progress(old(self).costs) && !exhausted(old(self).ex_budget) ==> progressed(
                old(self).acct(),
                final(self).acct(),
                true,
            ),
    {
        let ghost st = stack_view(stack@);
        self.step_and_maybe_spend(StepKind::Builtin)?;
        let runtime = Runtime::new(fun);
        if runtime.needs_force() {
            let forced = runtime.force();
            proof {
                lemma_values_view_empty(forced.args@);
            }
            let value = if forced.is_ready() {
                self.call(&forced)?
            } else {
                Rc::new(Value::Builtin(forced))
            };
            return Ok(MachineState::Return(value));
        }
        stack.push(Frame::Force);
        proof {
            assert(stack_view(stack@) =~= st.push(FrameV::Force));
        }
        Ok(MachineState::Compute(env, body))
    }

    /// Forcing the forced built-in term `body`, which is `fun` forced, after
    /// its first force step.
    fn force_forced_builtin_term<'a>(
        &mut self,
        stack: &mut Vec<Frame<'a>>,
        env: Env<'a>,
        body: &'a Term,
        fun: DefaultFunction,
    ) -> (r: Result<MachineState<'a>, MachineError>)
        requires
            old(self).inv(),
            body@ == TermV::Force(Box::new(TermV::Builtin(fun))),
        ensures
            (final(self).acct(), stack_view(final(stack)@), transition_view(r)) == force_builtin_twice_directly(
                old(self).acct(),
                old(self).costs,
                old(self).semantics,
                stack_view(old(stack)@),
                env@,
                fun,
            ),
            final(self).costs == old(self).costs,
            final(self).semantics == old(self).semantics,
            final(self).slippage == old(self).slippage,
            r is Ok ==> final(self).inv(),
            r is Ok && makes_progress(old(self).costs) && !exhausted(old(self).ex_budget) ==> progressed(
                old(self).acct(),
                final(self).acct(),
                true,
            ),
    {
        let ghost st = stack_view(stack@);
        self.step_and_maybe_spend(StepKind::Builtin)?;
        let runtime = Runtime::new(fun);
        if runtime.needs_force() {
            let forced = runtime.force();
            if forced.needs_force() {
                let forced2 = forced.force();
                proof {
                    lemma_values_view_empty(forced2.args@);
                }
                let value = if forced2.is_ready() {
                    self.call(&forced2)?
                } else {
                    Rc::new(Value::Builtin(forced2))
                };
                return Ok(MachineState::Return(value));
            }
        }
        stack.push(Frame::Force);
        proof {
            assert(stack_view(stack@) =~= st.push(FrameV::Force));
        }
        Ok(MachineState::Compute(env, body))
    }
}

/// The view of no values is empty.
proof fn lemma_values_view_empty<'a>(s: Seq<Rc<Value<'a>>>)
    requires
        s.len() == 0,
    ensures
        values_view(s) == Seq::<ValueV>::empty(),
{
}

} // verus!
