//! Execution budget tracking.
//!
//! An [`ExBudget`] holds a CPU and memory allowance used by the CEK machine to
//! bound evaluation. The default budget mirrors the Cardano mainnet
//! per-transaction limit.

use vstd::prelude::*;

use super::saturating::{clamp_i64, saturating_mul_i64};

verus! {

/// Execution budget denominated in abstract memory and CPU units.
#[derive(Debug, Copy, Clone, PartialEq, Eq, Structural)]
pub struct ExBudget {
    /// Memory units available or consumed.
    pub mem: i64,
    /// CPU step units available or consumed.
    pub cpu: i64,
}

impl Default for ExBudget {
    /// The mainnet per-transaction budget.
    fn default() -> (r: Self)
        ensures
            r == ExBudget::spec_machine(),
    {
        Self::machine()
    }
}

impl ExBudget {
    /// The mainnet per-transaction budget: `14_000_000` mem, `10_000_000_000` cpu.
    pub open spec fn spec_machine() -> ExBudget {
        ExBudget { mem: 14_000_000, cpu: 10_000_000_000 }
    }

    /// The effectively unbounded budget: `14_000_000_000_000` mem,
    /// `10_000_000_000_000_000` cpu.
    pub open spec fn spec_machine_max() -> ExBudget {
        ExBudget { mem: 14_000_000_000_000, cpu: 10_000_000_000_000_000 }
    }

    /// The charge of one ordinary machine step (variable, constant, lambda,
    /// delay, force, apply, builtin, constr or case): 100 mem, 16000 cpu.
    pub open spec fn spec_step() -> ExBudget {
        ExBudget { mem: 100, cpu: 16000 }
    }

    /// Both components of `b` multiplied by `n`, saturating at the bounds of `i64`.
    pub open spec fn spec_scaled(b: ExBudget, n: i64) -> ExBudget {
        ExBudget { mem: clamp_i64(b.mem * n), cpu: clamp_i64(b.cpu * n) }
    }

    /// Creates a budget with explicit `mem` and `cpu` values.
    pub fn new(mem: i64, cpu: i64) -> (r: Self)
        ensures
            r.mem == mem,
            r.cpu == cpu,
    {
        ExBudget { mem, cpu }
    }

    /// An effectively unbounded budget for off-chain use.
    pub fn max() -> (r: Self)
        ensures
            r == Self::spec_machine_max(),
    {
        Self::machine_max()
    }

    /// Scales both `mem` and `cpu` by `n`, saturating at the bounds of `i64`.
    pub fn occurrences(&mut self, n: i64)
        ensures
            *final(self) == Self::spec_scaled(*old(self), n),
    {
        self.mem = saturating_mul_i64(self.mem, n);
        self.cpu = saturating_mul_i64(self.cpu, n);
    }

    /// The mainnet per-transaction budget (`14_000_000` mem, `10_000_000_000` cpu).
    pub fn machine() -> (r: Self)
        ensures
            r == Self::spec_machine(),
    {
        ExBudget { mem: 14_000_000, cpu: 10_000_000_000 }
    }

    /// The effectively unbounded budget.
    pub fn machine_max() -> (r: Self)
        ensures
            r == Self::spec_machine_max(),
    {
        ExBudget { mem: 14_000_000_000_000, cpu: 10_000_000_000_000_000 }
    }

    /// Charged once at program start-up: 100 mem, 100 cpu.
    pub fn start_up() -> (r: Self)
        ensures
            r.mem == 100,
            r.cpu == 100,
    {
        ExBudget { mem: 100, cpu: 100 }
    }

    /// Step cost of a variable lookup.
    pub fn var() -> (r: Self)
        ensures
            r == Self::spec_step(),
    {
        ExBudget { mem: 100, cpu: 16000 }
    }

    /// Step cost of a constant.
    pub fn constant() -> (r: Self)
        ensures
            r == Self::spec_step(),
    {
        ExBudget { mem: 100, cpu: 16000 }
    }

    /// Step cost of a lambda abstraction.
    pub fn lambda() -> (r: Self)
        ensures
            r == Self::spec_step(),
    {
        ExBudget { mem: 100, cpu: 16000 }
    }

    /// Step cost of a delay.
    pub fn delay() -> (r: Self)
        ensures
            r == Self::spec_step(),
    {
        ExBudget { mem: 100, cpu: 16000 }
    }

    /// Step cost of a force.
    pub fn force() -> (r: Self)
        ensures
            r == Self::spec_step(),
    {
        ExBudget { mem: 100, cpu: 16000 }
    }

    /// Step cost of an application.
    pub fn apply() -> (r: Self)
        ensures
            r == Self::spec_step(),
    {
        ExBudget { mem: 100, cpu: 16000 }
    }

    /// Step cost of entering a built-in.
    pub fn builtin() -> (r: Self)
        ensures
            r == Self::spec_step(),
    {
        ExBudget { mem: 100, cpu: 16000 }
    }

    /// Step cost of a constructor.
    pub fn constr() -> (r: Self)
        ensures
            r == Self::spec_step(),
    {
        ExBudget { mem: 100, cpu: 16000 }
    }

    /// Step cost of a case.
    pub fn case() -> (r: Self)
        ensures
            r == Self::spec_step(),
    {
        ExBudget { mem: 100, cpu: 16000 }
    }

    /// Component-wise difference `self - rhs`.
    pub fn minus(self, rhs: Self) -> (r: Self)
        requires
            i64::MIN <= self.mem - rhs.mem <= i64::MAX,
            i64::MIN <= self.cpu - rhs.cpu <= i64::MAX,
        ensures
            r.mem == self.mem - rhs.mem,
            r.cpu == self.cpu - rhs.cpu,
    {
        ExBudget { mem: self.mem - rhs.mem, cpu: self.cpu - rhs.cpu }
    }
}

} // verus!
