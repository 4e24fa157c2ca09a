//! Per-step costs of the CEK machine.

use vstd::prelude::*;

use crate::builtin::PlutusVersion;

use super::builtin_costs::spec_step_of;
use super::ex_budget::ExBudget;
use super::tables::{steps_v1, steps_v2, steps_v3};

verus! {

/// The kinds of machine step, each charged its own cost.
#[derive(Debug, Copy, Clone, PartialEq, Eq, Structural)]
pub enum StepKind {
    Constant,
    Var,
    Lambda,
    Apply,
    Delay,
    Force,
    Builtin,
    Constr,
    Case,
}

impl StepKind {
    /// The position of this step kind in a table of step costs.
    pub open spec fn spec_index(self) -> int {
        match self {
            StepKind::Constant => 0,
            StepKind::Var => 1,
            StepKind::Lambda => 2,
            StepKind::Apply => 3,
            StepKind::Delay => 4,
            StepKind::Force => 5,
            StepKind::Builtin => 6,
            StepKind::Constr => 7,
            StepKind::Case => 8,
        }
    }

    /// The position of this step kind in a table of step costs.
    pub fn index(&self) -> (r: usize)
        ensures
            r == self.spec_index(),
            r < 9,
    {
        match self {
            StepKind::Constant => 0,
            StepKind::Var => 1,
            StepKind::Lambda => 2,
            StepKind::Apply => 3,
            StepKind::Delay => 4,
            StepKind::Force => 5,
            StepKind::Builtin => 6,
            StepKind::Constr => 7,
            StepKind::Case => 8,
        }
    }
}

/// The cost of each kind of machine step, indexed by [`StepKind::index`].
#[derive(Debug, PartialEq, Eq)]
pub struct MachineCosts(pub [ExBudget; 9]);

impl Default for MachineCosts {
    /// The default step costs.
    fn default() -> (r: Self)
        ensures
            forall|i: int| 0 <= i < 9 ==> r.0@[i] == ExBudget::spec_step(),
    {
        Self::new()
    }
}

impl MachineCosts {
    /// The default step costs: every kind of step costs 100 mem and 16000 cpu.
    pub fn new() -> (r: Self)
        ensures
            forall|i: int| 0 <= i < 9 ==> r.0@[i] == ExBudget::spec_step(),
    {
        MachineCosts(
            [
                ExBudget::constant(),
                ExBudget::var(),
                ExBudget::lambda(),
                ExBudget::apply(),
                ExBudget::delay(),
                ExBudget::force(),
                ExBudget::builtin(),
                ExBudget::constr(),
                ExBudget::case(),
            ],
        )
    }

    /// The step costs of version `version` read from the cost parameters
    /// `params`; parameters that the list does not reach take their default.
    pub fn initialize_machine_costs(version: &PlutusVersion, params: &[i64]) -> (r: Self)
        ensures
            forall|i: int| 0 <= i < 9 ==> r.0@[i] == spec_step_of(*version, params@, i),
    {
        let (steps, _) = match version {
            PlutusVersion::V1 => steps_v1(params),
            PlutusVersion::V2 => steps_v2(params),
            PlutusVersion::V3 => steps_v3(params),
        };
        MachineCosts(steps)
    }

    /// The cost of the step kind at position `index`.
    pub fn get(&self, index: usize) -> (r: ExBudget)
        requires
            index < 9,
        ensures
            r == self.0@[index as int],
    {
        self.0[index]
    }
}

} // verus!
