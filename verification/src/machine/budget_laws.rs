//! What charging pending machine steps takes from the budget.

use vstd::prelude::*;

use crate::cost_model::machine_costs::MachineCosts;

use super::cek::{flush_from, Acct};

verus! {

/// The memory that the pending steps of kinds `k` and later cost: for each
/// kind, the number of its pending steps times its memory cost.
pub open spec fn pending_mem(steps: Seq<u8>, costs: MachineCosts, k: nat) -> int
    decreases 9 - k,
{
    if k >= 9 {
        0
    } else {
        steps[k as int] * costs.0@[k as int].mem + pending_mem(steps, costs, k + 1)
    }
}

/// The CPU that the pending steps of kinds `k` and later cost.
pub open spec fn pending_cpu(steps: Seq<u8>, costs: MachineCosts, k: nat) -> int
    decreases 9 - k,
{
    if k >= 9 {
        0
    } else {
        steps[k as int] * costs.0@[k as int].cpu + pending_cpu(steps, costs, k + 1)
    }
}

/// Whether every step cost is between 0 and `2^50`.
pub open spec fn moderate_costs(costs: MachineCosts) -> bool {
    forall|j: int| 0 <= j < 9 ==> 0 <= #[trigger] costs.0@[j].mem <= 0x4_0000_0000_0000 && 0
        <= costs.0@[j].cpu <= 0x4_0000_0000_0000
}

proof fn lemma_pending_nonneg(steps: Seq<u8>, costs: MachineCosts, k: nat)
    requires
        steps.len() == 9,
        moderate_costs(costs),
    ensures
        pending_mem(steps, costs, k) >= 0,
        pending_cpu(steps, costs, k) >= 0,
    decreases 9 - k,
{
    if k < 9 {
        lemma_pending_nonneg(steps, costs, k + 1);
        let s = steps[k as int] as int;
        let m = costs.0@[k as int].mem as int;
        let c = costs.0@[k as int].cpu as int;
        assert(s * m >= 0 && s * c >= 0) by (nonlinear_arith)
            requires
                s >= 0,
                m >= 0,
                c >= 0,
        ;
    }
}

/// Charging the pending steps from kind `k` on, when the budget covers
/// them, takes from the budget exactly each pending step's cost, in memory
/// and in CPU, and fails nowhere.
pub proof fn lemma_flush_takes_pending_costs(a: Acct, costs: MachineCosts, k: nat)
    requires
        a.steps.len() == 9,
        k <= 9,
        moderate_costs(costs),
        a.budget.mem - pending_mem(a.steps, costs, k) >= 0,
        a.budget.cpu - pending_cpu(a.steps, costs, k) >= 0,
    ensures
        flush_from(a, costs, k).1 is None,
        flush_from(a, costs, k).0.budget.mem == a.budget.mem - pending_mem(a.steps, costs, k),
        flush_from(a, costs, k).0.budget.cpu == a.budget.cpu - pending_cpu(a.steps, costs, k),
    decreases 9 - k,
{
    if k < 9 {
        let s = a.steps[k as int] as int;
        let m = costs.0@[k as int].mem as int;
        let c = costs.0@[k as int].cpu as int;
        assert(0 <= s * m <= 255 * 0x4_0000_0000_0000 && 0 <= s * c <= 255 * 0x4_0000_0000_0000)
            by (nonlinear_arith)
            requires
                0 <= s <= 255,
                0 <= m <= 0x4_0000_0000_0000,
                0 <= c <= 0x4_0000_0000_0000,
        ;
        assert(m * s == s * m && c * s == s * c) by (nonlinear_arith);
        let cost = crate::cost_model::ex_budget::ExBudget::spec_scaled(costs.0@[k as int], a.steps[k as int] as i64);
        assert(cost.mem == s * m && cost.cpu == s * c);
        let steps2 = a.steps.update(k as int, 0);
        lemma_pending_same(a.steps, steps2, costs, k + 1);
        lemma_pending_nonneg(a.steps, costs, k + 1);
        let a2 = Acct {
            budget: crate::cost_model::ex_budget::ExBudget { mem: (a.budget.mem - s * m) as i64, cpu: (a.budget.cpu - s * c) as i64 },
            steps: steps2,
            ..a
        };
        lemma_flush_takes_pending_costs(a2, costs, k + 1);
        assert(super::cek::spent(a.budget, cost) == a2.budget);
        assert(!super::cek::exhausted(a2.budget));
    }
}

/// The pending costs from kind `k` on depend only on the steps from `k` on.
proof fn lemma_pending_same(s1: Seq<u8>, s2: Seq<u8>, costs: MachineCosts, k: nat)
    requires
        s1.len() == 9,
        s2.len() == 9,
        forall|j: int| k <= j < 9 ==> s1[j] == s2[j],
    ensures
        pending_mem(s1, costs, k) == pending_mem(s2, costs, k),
        pending_cpu(s1, costs, k) == pending_cpu(s2, costs, k),
    decreases 9 - k,
{
    if k < 9 {
        lemma_pending_same(s1, s2, costs, k + 1);
    }
}

} // verus!
