//! Running the machine to the end, and what it reports.

use vstd::prelude::*;

use crate::builtin::{BuiltinSemantics, DefaultFunction, PlutusVersion};
use crate::cost_model::builtin_costs::{
    lemma_cpu_nonneg, lemma_default_cpu_nonneg, spec_default_cost, spec_entry, CostModel,
};
use crate::cost_model::ex_budget::ExBudget;
use crate::cost_model::saturating::{clamp_i64, saturating_sub_i64};
use crate::program::Program;
use crate::term::{Term, TermV};

use super::cek::{
    exhausted, fresh_acct, makes_progress, measure, spec_compute, spent, stack_view, state_view,
    Acct, Frame, Machine, MachineState, StateV, Transition,
};
use super::continuation::spec_return;
use super::error::MachineError;
use super::value::Env;

verus! {

/// One step of the machine from state `s`.
pub open spec fn spec_step(
    a: Acct,
    costs: CostModel,
    semantics: BuiltinSemantics,
    stack: Seq<super::cek::FrameV>,
    s: StateV,
) -> Transition {
    match s {
        StateV::Compute(env, t) => spec_compute(a, costs, semantics, stack, env, t),
        StateV::Return(v) => spec_return(a, costs, semantics, stack, v),
        StateV::Done(t) => (a, stack, Ok(StateV::Done(t))),
    }
}

/// Where the machine ends within `fuel` steps from state `s`: the
/// accounting and the term or the error, or `None` when it needs more steps.
pub open spec fn spec_run(
    fuel: nat,
    a: Acct,
    costs: CostModel,
    semantics: BuiltinSemantics,
    stack: Seq<super::cek::FrameV>,
    s: StateV,
) -> Option<(Acct, Result<TermV, MachineError>)>
    decreases fuel,
{
    if let StateV::Done(t) = s {
        Some((a, Ok(t)))
    } else if fuel == 0 {
        None
    } else {
        let (a1, stack1, r) = spec_step(a, costs, semantics, stack, s);
        match r {
            Err(e) => Some((a1, Err(e))),
            Ok(s1) => spec_run((fuel - 1) as nat, a1, costs, semantics, stack1, s1),
        }
    }
}

/// Whether evaluating `t` from accounting `a` ends with `out`: the start-up
/// charge, then the steps from computing `t` in the empty environment with
/// no frames.
pub open spec fn evaluates_to(
    a: Acct,
    costs: CostModel,
    semantics: BuiltinSemantics,
    t: TermV,
    out: (Acct, Result<TermV, MachineError>),
) -> bool {
    let b = spent(a.budget, costs.machine_startup);
    if exhausted(b) {
        out == (Acct { budget: b, ..a }, Err::<TermV, MachineError>(MachineError::OutOfExError(b)))
    } else {
        exists|n: nat|
            #[trigger] spec_run(
                n,
                Acct { budget: b, ..a },
                costs,
                semantics,
                Seq::empty(),
                StateV::Compute(Seq::empty(), t),
            ) == Some(out)
    }
}

/// The value of the result of a run.
pub open spec fn run_view(r: Result<Term, MachineError>) -> Result<TermV, MachineError> {
    match r {
        Ok(t) => Ok(t@),
        Err(e) => Err(e),
    }
}

impl Machine {
    /// Evaluates `term` to the end: charges the start-up cost, then steps
    /// until the machine is done or fails.
    pub fn run<'a>(&mut self, term: &'a Term) -> (r: Result<Term, MachineError>)
        requires
            old(self).inv(),
            makes_progress(old(self).costs),
        ensures
            evaluates_to(
                old(self).acct(),
                old(self).costs,
                old(self).semantics,
                term@,
                (final(self).acct(), run_view(r)),
            ),
            final(self).costs == old(self).costs,
            final(self).semantics == old(self).semantics,
            final(self).slippage == old(self).slippage,
    {
        let startup = self.costs.machine_startup;
        match self.spend_budget(startup) {
            Err(e) => {
                return Err(e);
            },
            Ok(()) => {},
        }
        let ghost a1 = self.acct();
        let ghost init = StateV::Compute(Seq::empty(), term@);
        let ghost costs = self.costs;
        let ghost semantics = self.semantics;
        let mut stack: Vec<Frame<'a>> = Vec::new();
        let mut state = MachineState::Compute(Env::new(), term);
        let ghost mut n: nat = 0;
        proof {
            assert(stack_view(stack@) =~= Seq::<super::cek::FrameV>::empty());
        }
        loop
            invariant
                self.inv(),
                makes_progress(self.costs),
                !exhausted(self.ex_budget),
                self.costs == costs,
                self.semantics == semantics,
                costs == old(self).costs,
                semantics == old(self).semantics,
                self.slippage == old(self).slippage,
                a1 == (Acct { budget: spent(old(self).ex_budget, costs.machine_startup), ..old(self).acct() }),
                !exhausted(a1.budget),
                init == StateV::Compute(Seq::empty(), term@),
                forall|k: nat|
                    #[trigger] spec_run(k + n, a1, costs, semantics, Seq::empty(), init) == spec_run(
                        k,
                        self.acct(),
                        costs,
                        semantics,
                        stack_view(stack@),
                        state_view(state),
                    ),
            decreases measure(self.acct()), if state is Return { 1int } else { 0int }, stack@.len(),
        {
            let ghost cur_a = self.acct();
            let ghost cur_stack = stack_view(stack@);
            let ghost cur_state = state_view(state);
            let next = match state {
                MachineState::Done(t) => {
                    proof {
                        assert(spec_run(0 + n, a1, costs, semantics, Seq::empty(), init) == spec_run(
                            0,
                            cur_a,
                            costs,
                            semantics,
                            cur_stack,
                            cur_state,
                        ));
                    }
                    return Ok(t);
                },
                MachineState::Compute(env, t) => self.compute(&mut stack, env, t),
                MachineState::Return(v) => self.return_compute(&mut stack, v),
            };
            match next {
                Err(e) => {
                    proof {
                        assert(spec_run(1 + n, a1, costs, semantics, Seq::empty(), init) == spec_run(
                            1,
                            cur_a,
                            costs,
                            semantics,
                            cur_stack,
                            cur_state,
                        ));
                    }
                    return Err(e);
                },
                Ok(s1) => {
                    state = s1;
                    proof {
                        let old_n = n;
                        n = n + 1;
                        assert forall|k: nat|
                            #[trigger] spec_run(k + n, a1, costs, semantics, Seq::empty(), init) == spec_run(
                                k,
                                self.acct(),
                                costs,
                                semantics,
                                stack_view(stack@),
                                state_view(state),
                            ) by {
                            assert(spec_run((k + 1) as nat + old_n, a1, costs, semantics, Seq::empty(), init)
                                == spec_run((k + 1) as nat, cur_a, costs, semantics, cur_stack, cur_state));
                            assert((k + 1) as nat + old_n == k + n);
                        }
                    }
                },
            }
        }
    }
}

/// More steps do not change where the machine ends.
pub proof fn lemma_run_more_fuel(
    n: nat,
    m: nat,
    a: Acct,
    costs: CostModel,
    semantics: BuiltinSemantics,
    stack: Seq<super::cek::FrameV>,
    s: StateV,
)
    requires
        n <= m,
        spec_run(n, a, costs, semantics, stack, s) is Some,
    ensures
        spec_run(m, a, costs, semantics, stack, s) == spec_run(n, a, costs, semantics, stack, s),
    decreases n,
{
    if !(s is Done) {
        let (a1, stack1, r) = spec_step(a, costs, semantics, stack, s);
        if let Ok(s1) = r {
            lemma_run_more_fuel((n - 1) as nat, (m - 1) as nat, a1, costs, semantics, stack1, s1);
        }
    }
}

/// Evaluation is a function: a term evaluates to one result, with one
/// budget left, under given costs and semantics.
pub proof fn lemma_evaluation_deterministic(
    a: Acct,
    costs: CostModel,
    semantics: BuiltinSemantics,
    t: TermV,
    out1: (Acct, Result<TermV, MachineError>),
    out2: (Acct, Result<TermV, MachineError>),
)
    requires
        evaluates_to(a, costs, semantics, t, out1),
        evaluates_to(a, costs, semantics, t, out2),
    ensures
        out1 == out2,
{
    let b = spent(a.budget, costs.machine_startup);
    if !exhausted(b) {
        let a1 = Acct { budget: b, ..a };
        let init = StateV::Compute(Seq::<super::value::ValueV>::empty(), t);
        let n1 = choose|n: nat| #[trigger] spec_run(n, a1, costs, semantics, Seq::empty(), init) == Some(out1);
        let n2 = choose|n: nat| #[trigger] spec_run(n, a1, costs, semantics, Seq::empty(), init) == Some(out2);
        if n1 <= n2 {
            lemma_run_more_fuel(n1, n2, a1, costs, semantics, Seq::empty(), init);
        } else {
            lemma_run_more_fuel(n2, n1, a1, costs, semantics, Seq::empty(), init);
        }
    }
}

/// The budget consumed from `initial` to leave `remaining`, each component
/// saturating at the bounds of `i64`.
pub open spec fn consumed(initial: ExBudget, remaining: ExBudget) -> ExBudget {
    ExBudget { mem: clamp_i64(initial.mem - remaining.mem), cpu: clamp_i64(initial.cpu - remaining.cpu) }
}

/// The budget left and the budget consumed make up the initial budget,
/// wherever the difference is a 64-bit number.
pub proof fn lemma_consumed_and_remaining(initial: ExBudget, remaining: ExBudget)
    requires
        i64::MIN <= initial.mem - remaining.mem <= i64::MAX,
        i64::MIN <= initial.cpu - remaining.cpu <= i64::MAX,
    ensures
        remaining.mem + consumed(initial, remaining).mem == initial.mem,
        remaining.cpu + consumed(initial, remaining).cpu == initial.cpu,
{
}

/// What an evaluation reports besides its result.
pub struct MachineInfo {
    /// The budget left after evaluation: the initial budget minus the
    /// budget consumed.
    pub remaining_budget: ExBudget,
    /// The budget consumed during evaluation.
    pub consumed_budget: ExBudget,
    /// The lines traced, in order.
    pub logs: Vec<String>,
}

/// The result of evaluating a program.
pub struct EvalResult {
    /// The final term, or the error that stopped evaluation.
    pub term: Result<Term, MachineError>,
    /// The budget and the traced lines.
    pub info: MachineInfo,
}

impl Machine {
    /// What the machine reports after a run that started from
    /// `initial_budget`.
    pub fn info(self, initial_budget: ExBudget) -> (r: MachineInfo)
        ensures
            r.remaining_budget == self.ex_budget,
            r.consumed_budget == consumed(initial_budget, self.ex_budget),
            r.logs == self.logs,
    {
        let remaining = self.ex_budget;
        MachineInfo {
            remaining_budget: remaining,
            consumed_budget: ExBudget {
                mem: saturating_sub_i64(initial_budget.mem, remaining.mem),
                cpu: saturating_sub_i64(initial_budget.cpu, remaining.cpu),
            },
            logs: self.logs,
        }
    }
}

/// The semantics of the built-ins under a ledger language.
pub open spec fn semantics_of(v: PlutusVersion) -> BuiltinSemantics {
    if v == PlutusVersion::V3 {
        BuiltinSemantics::V2
    } else {
        BuiltinSemantics::V1
    }
}

/// Whether `c` has the default costs: the default start-up and step
/// costs, and the default built-in table of the third version.
pub open spec fn is_default_costs(c: CostModel) -> bool {
    &&& c.machine_startup == (ExBudget { mem: 100, cpu: 100 })
    &&& forall|i: int| 0 <= i < 9 ==> c.machine_costs.0@[i] == ExBudget::spec_step()
    &&& forall|f: DefaultFunction, s: Seq<i64>| #[trigger] c.builtin_costs.spec_cost(f, s) == spec_default_cost(PlutusVersion::V3, f, s)
}

/// Whether `r` is what evaluating `t` from `initial_budget` under `costs`
/// and `semantics` reports: the result, the budget left and the lines
/// traced as the machine ends, and the budget consumed.
pub open spec fn reports(
    r: EvalResult,
    t: TermV,
    costs: CostModel,
    semantics: BuiltinSemantics,
    initial_budget: ExBudget,
) -> bool {
    &&& exists|a: Acct|
        #![trigger a.budget]
        a.budget == r.info.remaining_budget && a.logs == r.info.logs@.map_values(|l: String| l@)
            && evaluates_to(fresh_acct(initial_budget), costs, semantics, t, (a, run_view(r.term)))
    &&& r.info.consumed_budget == consumed(initial_budget, r.info.remaining_budget)
}

impl Program {
    /// Evaluates the program under `cost_model`, with the built-in
    /// behaviour of `plutus_version`, from `initial_budget`.
    pub fn evaluate(&self, cost_model: CostModel, plutus_version: PlutusVersion, initial_budget: ExBudget) -> (r: EvalResult)
        requires
            cost_model.wf(),
            makes_progress(cost_model),
        ensures
            reports(r, self.term@, cost_model, semantics_of(plutus_version), initial_budget),
    {
        let ghost costs = cost_model;
        let mut machine = Machine::new(initial_budget, cost_model, BuiltinSemantics::from_version(&plutus_version));
        let term = machine.run(&self.term);
        let ghost a = machine.acct();
        let info = machine.info(initial_budget);
        let r = EvalResult { term, info };
        proof {
            assert(a.budget == r.info.remaining_budget);
            assert(a.logs == r.info.logs@.map_values(|l: String| l@));
        }
        r
    }

    /// Evaluates the program with the built-in behaviour of
    /// `plutus_version` and the default costs, from `initial_budget`.
    pub fn eval_version_budget(&self, plutus_version: PlutusVersion, initial_budget: ExBudget) -> (r: EvalResult)
        ensures
            exists|c: CostModel|
                is_default_costs(c) && reports(r, self.term@, c, semantics_of(plutus_version), initial_budget),
    {
        let costs = CostModel::new();
        let ghost c = costs;
        proof {
            assert forall|i: int| 0 <= i < 9 implies #[trigger] c.machine_costs.0@[i].cpu >= 1 by {}
            assert forall|f: DefaultFunction, s: Seq<i64>| #[trigger] c.builtin_costs.spec_cost(f, s).cpu >= 0 by {
                lemma_default_cpu_nonneg(PlutusVersion::V3, f);
                lemma_cpu_nonneg(spec_entry(PlutusVersion::V3, Seq::empty(), f), s);
            }
        }
        let r = self.evaluate(costs, plutus_version, initial_budget);
        proof {
            assert(is_default_costs(c));
        }
        r
    }

    /// Evaluates the program with the built-in behaviour of
    /// `plutus_version`, the default costs and the mainnet budget.
    pub fn eval_version(&self, plutus_version: PlutusVersion) -> (r: EvalResult)
        ensures
            exists|c: CostModel|
                is_default_costs(c) && reports(
                    r,
                    self.term@,
                    c,
                    semantics_of(plutus_version),
                    ExBudget::spec_machine(),
                ),
    {
        self.eval_version_budget(plutus_version, ExBudget::machine())
    }

    /// Evaluates the program under Plutus V3, with the default costs and the
    /// mainnet budget.
    pub fn eval(&self) -> (r: EvalResult)
        ensures
            exists|c: CostModel|
                is_default_costs(c) && reports(
                    r,
                    self.term@,
                    c,
                    BuiltinSemantics::V2,
                    ExBudget::spec_machine(),
                ),
    {
        self.eval_version(PlutusVersion::V3)
    }
}

} // verus!
