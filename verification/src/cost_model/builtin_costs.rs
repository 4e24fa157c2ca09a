//! The cost model of built-in calls and the whole cost model of a machine.

use vstd::prelude::*;

use crate::builtin::{spec_tag, DefaultFunction, PlutusVersion};
use crate::syn::names::builtin_named;
use crate::syn::term::builtin_from_str;
use crate::term::Term;

use super::costing::{Cost, Costing, OneArgument, SixArguments, ThreeArguments, TwoArguments};
use super::ex_budget::ExBudget;
use super::machine_costs::MachineCosts;
use super::tables::{
    entry_v1, entry_v2, entry_v3, spec_entry_v1, spec_entry_v2, spec_entry_v3, spec_startup_v1,
    spec_startup_v2, spec_startup_v3, spec_step_v1, spec_step_v2, spec_step_v3, steps_v1, steps_v2,
    steps_v3,
};

verus! {

/// The number of built-in functions.
pub const BUILTIN_COUNT: usize = 92;

/// The memory and CPU cost functions of one built-in, by its number of
/// argument sizes.
#[derive(Debug, PartialEq, Eq)]
pub enum BuiltinCost {
    One(Costing<1, OneArgument>),
    Two(Costing<2, TwoArguments>),
    Three(Costing<3, ThreeArguments>),
    Six(Costing<6, SixArguments>),
}

/// The `k`-th size, or 0 when there are fewer. Sizes are never negative;
/// a negative one counts as 0.
pub open spec fn size_at(sizes: Seq<i64>, k: int) -> i64 {
    if 0 <= k < sizes.len() && sizes[k] > 0 {
        sizes[k]
    } else {
        0
    }
}

/// The `n` first sizes, padded with zeros.
pub open spec fn first_sizes(sizes: Seq<i64>, n: nat) -> Seq<i64> {
    Seq::new(n, |k: int| size_at(sizes, k))
}

/// What a built-in cost function charges for argument sizes `sizes`.
pub open spec fn spec_builtin_cost(c: BuiltinCost, sizes: Seq<i64>) -> ExBudget {
    match c {
        BuiltinCost::One(f) => ExBudget {
            mem: f.mem.cost_of(first_sizes(sizes, 1)),
            cpu: f.cpu.cost_of(first_sizes(sizes, 1)),
        },
        BuiltinCost::Two(f) => ExBudget {
            mem: f.mem.cost_of(first_sizes(sizes, 2)),
            cpu: f.cpu.cost_of(first_sizes(sizes, 2)),
        },
        BuiltinCost::Three(f) => ExBudget {
            mem: f.mem.cost_of(first_sizes(sizes, 3)),
            cpu: f.cpu.cost_of(first_sizes(sizes, 3)),
        },
        BuiltinCost::Six(f) => ExBudget {
            mem: f.mem.cost_of(first_sizes(sizes, 6)),
            cpu: f.cpu.cost_of(first_sizes(sizes, 6)),
        },
    }
}

/// The cost functions of `f` under version `v` and cost parameters `p`.
pub open spec fn spec_entry(v: PlutusVersion, p: Seq<i64>, f: DefaultFunction) -> BuiltinCost {
    match v {
        PlutusVersion::V1 => spec_entry_v1(p, f),
        PlutusVersion::V2 => spec_entry_v2(p, f),
        PlutusVersion::V3 => spec_entry_v3(p, f),
    }
}

/// What calling `f` on arguments of sizes `s` costs under version `v` and
/// cost parameters `p`.
pub open spec fn spec_param_cost(v: PlutusVersion, p: Seq<i64>, f: DefaultFunction, s: Seq<i64>) -> ExBudget {
    spec_builtin_cost(spec_entry(v, p, f), s)
}

/// What calling `f` on arguments of sizes `s` costs under the default table
/// of version `v`.
pub open spec fn spec_default_cost(v: PlutusVersion, f: DefaultFunction, s: Seq<i64>) -> ExBudget {
    spec_param_cost(v, Seq::empty(), f, s)
}

/// The cost of the step kind at position `i` under version `v` and cost
/// parameters `p`.
pub open spec fn spec_step_of(v: PlutusVersion, p: Seq<i64>, i: int) -> ExBudget {
    match v {
        PlutusVersion::V1 => spec_step_v1(p, i),
        PlutusVersion::V2 => spec_step_v2(p, i),
        PlutusVersion::V3 => spec_step_v3(p, i),
    }
}

/// The start-up cost under version `v` and cost parameters `p`.
pub open spec fn spec_startup_of(v: PlutusVersion, p: Seq<i64>) -> ExBudget {
    match v {
        PlutusVersion::V1 => spec_startup_v1(p),
        PlutusVersion::V2 => spec_startup_v2(p),
        PlutusVersion::V3 => spec_startup_v3(p),
    }
}

/// Whether the CPU cost function of `c` has no negative coefficient where
/// one could make it negative; it then never charges negative CPU.
pub open spec fn cpu_nonneg(c: BuiltinCost) -> bool {
    match c {
        BuiltinCost::One(f) => match f.cpu {
            OneArgument::Constant(k) => k >= 0,
            OneArgument::Linear(l) => l.intercept >= 0 && l.slope >= 0,
            OneArgument::Quadratic(q) => q.coeff_0 >= 0 && q.coeff_1 >= 0 && q.coeff_2 >= 0,
        },
        BuiltinCost::Two(f) => match f.cpu {
            TwoArguments::ConstantCost(k) => k >= 0,
            TwoArguments::LinearInX(l) => l.intercept >= 0 && l.slope >= 0,
            TwoArguments::LinearInY(l) => l.intercept >= 0 && l.slope >= 0,
            TwoArguments::AddedSizes(l) => l.intercept >= 0 && l.slope >= 0,
            TwoArguments::SubtractedSizes(l) => l.intercept >= 0 && l.slope >= 0 && l.minimum >= 0,
            TwoArguments::MultipliedSizes(l) => l.intercept >= 0 && l.slope >= 0,
            TwoArguments::MinSize(l) => l.intercept >= 0 && l.slope >= 0,
            TwoArguments::MaxSize(l) => l.intercept >= 0 && l.slope >= 0,
            TwoArguments::LinearOnDiagonal(l) => l.constant >= 0 && l.intercept >= 0 && l.slope >= 0,
            TwoArguments::QuadraticInY(q) => q.coeff_0 >= 0 && q.coeff_1 >= 0 && q.coeff_2 >= 0,
            TwoArguments::ConstAboveDiagonalIntoQuadraticXAndY(k, q) => k >= 0 && q.minimum >= 0,
            TwoArguments::ConstAboveDiagonalIntoMultipliedSizes(k, l) => k >= 0 && l.intercept >= 0 && l.slope >= 0,
            TwoArguments::WithInteraction(w) => w.c00 >= 0 && w.c10 >= 0 && w.c01 >= 0 && w.c11 >= 0,
        },
        BuiltinCost::Three(f) => match f.cpu {
            ThreeArguments::ConstantCost(k) => k >= 0,
            ThreeArguments::LinearInX(l) => l.intercept >= 0 && l.slope >= 0,
            ThreeArguments::LinearInY(l) => l.intercept >= 0 && l.slope >= 0,
            ThreeArguments::LinearInZ(l) => l.intercept >= 0 && l.slope >= 0,
            ThreeArguments::QuadraticInZ(q) => q.coeff_0 >= 0 && q.coeff_1 >= 0 && q.coeff_2 >= 0,
            ThreeArguments::LiteralInYorLinearInZ(l) => l.intercept >= 0 && l.slope >= 0,
            ThreeArguments::LinearInYAndZ(l) => l.intercept >= 0 && l.slope1 >= 0 && l.slope2 >= 0,
            ThreeArguments::LinearInMaxYZ(l) => l.intercept >= 0 && l.slope >= 0,
            ThreeArguments::ExpModCost(e) => e.coeff_00 >= 0 && e.coeff_11 >= 0 && e.coeff_12 >= 0,
        },
        BuiltinCost::Six(f) => match f.cpu {
            SixArguments::ConstantCost(k) => k >= 0,
        },
    }
}

/// A cost function without such negative coefficients never charges
/// negative CPU.
pub proof fn lemma_cpu_nonneg(c: BuiltinCost, s: Seq<i64>)
    requires
        cpu_nonneg(c),
    ensures
        spec_builtin_cost(c, s).cpu >= 0,
{
    match c {
        BuiltinCost::One(f) => {
            assert(first_sizes(s, 1)[0] >= 0);
        },
        BuiltinCost::Two(f) => {
            assert(first_sizes(s, 2)[0] >= 0);
            assert(first_sizes(s, 2)[1] >= 0);
        },
        BuiltinCost::Three(f) => {
            assert(first_sizes(s, 3)[0] >= 0);
            assert(first_sizes(s, 3)[1] >= 0);
            assert(first_sizes(s, 3)[2] >= 0);
        },
        BuiltinCost::Six(f) => {},
    }
}

/// The default tables never charge negative CPU.
pub proof fn lemma_default_cpu_nonneg(v: PlutusVersion, f: DefaultFunction)
    ensures
        cpu_nonneg(spec_entry(v, Seq::empty(), f)),
{
}

/// A built-in's cost applies its memory and CPU cost functions to the
/// sizes of its arguments in order; sizes past its number of arguments do
/// not matter, and missing ones count as 0.
pub proof fn lemma_builtin_cost_uses_sizes_in_order(c: BuiltinCost, s: Seq<i64>)
    requires
        forall|k: int| 0 <= k < s.len() ==> #[trigger] s[k] >= 0,
    ensures
        s.len() >= 1 ==> (c matches BuiltinCost::One(f) ==> spec_builtin_cost(c, s) == (ExBudget {
            mem: f.mem.cost_of(seq![s[0]]),
            cpu: f.cpu.cost_of(seq![s[0]]),
        })),
        s.len() >= 2 ==> (c matches BuiltinCost::Two(f) ==> spec_builtin_cost(c, s) == (ExBudget {
            mem: f.mem.cost_of(seq![s[0], s[1]]),
            cpu: f.cpu.cost_of(seq![s[0], s[1]]),
        })),
        s.len() >= 3 ==> (c matches BuiltinCost::Three(f) ==> spec_builtin_cost(c, s) == (ExBudget {
            mem: f.mem.cost_of(seq![s[0], s[1], s[2]]),
            cpu: f.cpu.cost_of(seq![s[0], s[1], s[2]]),
        })),
        s.len() == 1 ==> (c matches BuiltinCost::Two(f) ==> spec_builtin_cost(c, s) == (ExBudget {
            mem: f.mem.cost_of(seq![s[0], 0]),
            cpu: f.cpu.cost_of(seq![s[0], 0]),
        })),
{
    match c {
        BuiltinCost::One(f) => {
            if s.len() >= 1 {
                assert(first_sizes(s, 1) =~= seq![s[0]]);
            }
        },
        BuiltinCost::Two(f) => {
            if s.len() >= 2 {
                assert(first_sizes(s, 2) =~= seq![s[0], s[1]]);
            }
            if s.len() == 1 {
                assert(first_sizes(s, 2) =~= seq![s[0], 0]);
            }
        },
        BuiltinCost::Three(f) => {
            if s.len() >= 3 {
                assert(first_sizes(s, 3) =~= seq![s[0], s[1], s[2]]);
            }
        },
        BuiltinCost::Six(f) => {},
    }
}

/// The cost functions of every built-in, indexed by its Flat tag.
#[derive(Debug, PartialEq, Eq)]
pub struct BuiltinCosts {
    pub table: Vec<BuiltinCost>,
}

impl BuiltinCosts {
    /// Whether there is one entry per built-in.
    pub open spec fn wf(&self) -> bool {
        self.table@.len() == BUILTIN_COUNT
    }

    /// What calling `fun` on arguments of sizes `sizes` costs.
    pub open spec fn spec_cost(&self, fun: DefaultFunction, sizes: Seq<i64>) -> ExBudget {
        spec_builtin_cost(self.table@[spec_tag(fun) as int], sizes)
    }

    /// A table in which every built-in call is free.
    pub fn free() -> (r: Self)
        ensures
            r.wf(),
            forall|f: DefaultFunction, s: Seq<i64>| #[trigger] r.spec_cost(f, s) == (ExBudget { mem: 0, cpu: 0 }),
    {
        let mut table: Vec<BuiltinCost> = Vec::new();
        let mut k: usize = 0;
        while k < BUILTIN_COUNT
            invariant
                k <= BUILTIN_COUNT,
                table@.len() == k,
                forall|j: int| 0 <= j < k ==> #[trigger] table@[j] == BuiltinCost::Six(
                    Costing { mem: SixArguments::ConstantCost(0), cpu: SixArguments::ConstantCost(0) },
                ),
            decreases BUILTIN_COUNT - k,
        {
            table.push(
                BuiltinCost::Six(
                    Costing::new(SixArguments::ConstantCost(0), SixArguments::ConstantCost(0)),
                ),
            );
            k += 1;
        }
        let r = BuiltinCosts { table };
        proof {
            assert forall|f: DefaultFunction, s: Seq<i64>| #[trigger] r.spec_cost(f, s) == (ExBudget { mem: 0, cpu: 0 }) by {
                crate::builtin::lemma_tag_bound(f);
                crate::builtin::lemma_tag_count(f);
            }
        }
        r
    }

    /// The table of version `version` read from the cost parameters
    /// `params`; parameters that the list does not reach take their default.
    pub fn initialize_builtin_costs(version: &PlutusVersion, params: &[i64]) -> (r: Self)
        ensures
            r.wf(),
            forall|f: DefaultFunction, s: Seq<i64>| #[trigger] r.spec_cost(f, s) == spec_param_cost(*version, params@, f, s),
    {
        let mut table: Vec<BuiltinCost> = Vec::new();
        let mut t: u8 = 0;
        while t < 92
            invariant
                t <= 92,
                table@.len() == t,
                forall|f: DefaultFunction| spec_tag(f) < t ==> #[trigger] table@[spec_tag(f) as int] == spec_entry(*version, params@, f),
            decreases 92 - t,
        {
            let f = match DefaultFunction::from_tag(t) {
                Some(f) => f,
                None => {
                    return Self { table };
                },
            };
            let e = match version {
                PlutusVersion::V1 => entry_v1(params, f),
                PlutusVersion::V2 => entry_v2(params, f),
                PlutusVersion::V3 => entry_v3(params, f),
            };
            table.push(e);
            t += 1;
        }
        let r = BuiltinCosts { table };
        proof {
            assert forall|f: DefaultFunction, s: Seq<i64>| #[trigger] r.spec_cost(f, s) == spec_param_cost(*version, params@, f, s) by {
                crate::builtin::lemma_tag_count(f);
            }
        }
        r
    }

    /// The default table of the first version.
    pub fn v1() -> (r: Self)
        ensures
            r.wf(),
            forall|f: DefaultFunction, s: Seq<i64>| #[trigger] r.spec_cost(f, s) == spec_default_cost(PlutusVersion::V1, f, s),
    {
        let none: Vec<i64> = Vec::new();
        Self::initialize_builtin_costs(&PlutusVersion::V1, none.as_slice())
    }

    /// The default table of the second version.
    pub fn v2() -> (r: Self)
        ensures
            r.wf(),
            forall|f: DefaultFunction, s: Seq<i64>| #[trigger] r.spec_cost(f, s) == spec_default_cost(PlutusVersion::V2, f, s),
    {
        let none: Vec<i64> = Vec::new();
        Self::initialize_builtin_costs(&PlutusVersion::V2, none.as_slice())
    }

    /// The default table of the third version.
    pub fn v3() -> (r: Self)
        ensures
            r.wf(),
            forall|f: DefaultFunction, s: Seq<i64>| #[trigger] r.spec_cost(f, s) == spec_default_cost(PlutusVersion::V3, f, s),
    {
        let none: Vec<i64> = Vec::new();
        Self::initialize_builtin_costs(&PlutusVersion::V3, none.as_slice())
    }

    /// What calling the built-in named `builtin` (as in the text syntax) on
    /// arguments of sizes `args` costs, or `None` for an unknown name.
    pub fn get_cost(&self, builtin: &str, args: &[i64]) -> (r: Option<ExBudget>)
        requires
            self.wf(),
        ensures
            match builtin_named(builtin@) {
                Some(f) => r == Some(self.spec_cost(f, args@)),
                None => r is None,
            },
    {
        match builtin_from_str(builtin) {
            Some(Term::Builtin(f)) => Some(self.cost(f, args)),
            _ => None,
        }
    }

    /// What calling `fun` on arguments of sizes `sizes` costs.
    pub fn cost(&self, fun: DefaultFunction, sizes: &[i64]) -> (r: ExBudget)
        requires
            self.wf(),
        ensures
            r == self.spec_cost(fun, sizes@),
    {
        let t = fun.tag() as usize;
        proof {
            crate::builtin::lemma_tag_count(fun);
        }
        let s0 = if sizes.len() > 0 && sizes[0] > 0 { sizes[0] } else { 0 };
        let s1 = if sizes.len() > 1 && sizes[1] > 0 { sizes[1] } else { 0 };
        let s2 = if sizes.len() > 2 && sizes[2] > 0 { sizes[2] } else { 0 };
        let s3 = if sizes.len() > 3 && sizes[3] > 0 { sizes[3] } else { 0 };
        let s4 = if sizes.len() > 4 && sizes[4] > 0 { sizes[4] } else { 0 };
        let s5 = if sizes.len() > 5 && sizes[5] > 0 { sizes[5] } else { 0 };
        match &self.table[t] {
            BuiltinCost::One(f) => {
                let a = [s0];
                proof {
                    assert(a@ =~= first_sizes(sizes@, 1));
                }
                ExBudget { mem: f.mem.cost(a), cpu: f.cpu.cost(a) }
            },
            BuiltinCost::Two(f) => {
                let a = [s0, s1];
                proof {
                    assert(a@ =~= first_sizes(sizes@, 2));
                }
                ExBudget { mem: f.mem.cost(a), cpu: f.cpu.cost(a) }
            },
            BuiltinCost::Three(f) => {
                let a = [s0, s1, s2];
                proof {
                    assert(a@ =~= first_sizes(sizes@, 3));
                }
                ExBudget { mem: f.mem.cost(a), cpu: f.cpu.cost(a) }
            },
            BuiltinCost::Six(f) => {
                let a = [s0, s1, s2, s3, s4, s5];
                proof {
                    assert(a@ =~= first_sizes(sizes@, 6));
                }
                ExBudget { mem: f.mem.cost(a), cpu: f.cpu.cost(a) }
            },
        }
    }
}

/// The costs of a machine: start-up, steps and built-in calls.
#[derive(Debug, PartialEq, Eq)]
pub struct CostModel {
    pub machine_startup: ExBudget,
    pub machine_costs: MachineCosts,
    pub builtin_costs: BuiltinCosts,
}

impl CostModel {
    /// Whether the built-in table has one entry per built-in.
    pub open spec fn wf(&self) -> bool {
        self.builtin_costs.wf()
    }

    /// The default start-up and step costs, with the default built-in
    /// table of the third version.
    pub fn new() -> (r: Self)
        ensures
            r.wf(),
            r.machine_startup == (ExBudget { mem: 100, cpu: 100 }),
            forall|i: int| 0 <= i < 9 ==> r.machine_costs.0@[i] == ExBudget::spec_step(),
            forall|f: DefaultFunction, s: Seq<i64>| #[trigger] r.builtin_costs.spec_cost(f, s) == spec_default_cost(PlutusVersion::V3, f, s),
    {
        CostModel {
            machine_startup: ExBudget::start_up(),
            machine_costs: MachineCosts::new(),
            builtin_costs: BuiltinCosts::v3(),
        }
    }

    /// The cost model of version `version` read from the cost parameters
    /// `params`; parameters that the list does not reach take their default.
    pub fn initialize_cost_model(version: &PlutusVersion, params: &[i64]) -> (r: Self)
        ensures
            r.wf(),
            r.machine_startup == spec_startup_of(*version, params@),
            forall|i: int| 0 <= i < 9 ==> r.machine_costs.0@[i] == spec_step_of(*version, params@, i),
            forall|f: DefaultFunction, s: Seq<i64>| #[trigger] r.builtin_costs.spec_cost(f, s) == spec_param_cost(*version, params@, f, s),
    {
        let startup = match version {
            PlutusVersion::V1 => steps_v1(params).1,
            PlutusVersion::V2 => steps_v2(params).1,
            PlutusVersion::V3 => steps_v3(params).1,
        };
        CostModel {
            machine_startup: startup,
            machine_costs: MachineCosts::initialize_machine_costs(version, params),
            builtin_costs: BuiltinCosts::initialize_builtin_costs(version, params),
        }
    }
}

} // verus!
