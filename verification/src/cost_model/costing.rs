//! Cost functions of built-in calls.
//!
//! Each cost function maps the sizes of a built-in's arguments to a number of
//! abstract units. All arithmetic saturates at the bounds of `i64`.

use vstd::prelude::*;

use super::saturating::{
    clamp_i64, max_i64, min_i64, saturating_add_i64, saturating_mul_i64, saturating_sub_i64,
};

verus! {

/// A cost function of `N` argument sizes.
pub trait Cost<const N: usize> {
    /// What [`Cost::cost`] returns on argument sizes `args` (of length `N`).
    spec fn cost_of(&self, args: Seq<i64>) -> i64;

    /// The cost for the given argument sizes.
    fn cost(&self, args: [i64; N]) -> (r: i64)
        ensures
            r == self.cost_of(args@),
    ;
}

/// A pair of cost functions: one for memory, one for CPU.
#[derive(Debug, PartialEq, Eq)]
pub struct Costing<const N: usize, T: Cost<N>> {
    /// Memory cost function.
    pub mem: T,
    /// CPU cost function.
    pub cpu: T,
}

impl<const N: usize, T: Cost<N>> Costing<N, T> {
    /// Pairs a memory and a CPU cost function.
    pub fn new(mem: T, cpu: T) -> (r: Self)
        ensures
            r.mem == mem,
            r.cpu == cpu,
    {
        Self { mem, cpu }
    }
}

/// `intercept + slope * x`.
#[derive(Debug, PartialEq, Eq)]
pub struct LinearSize {
    pub intercept: i64,
    pub slope: i64,
}

/// `intercept + slope1 * y + slope2 * z`.
#[derive(Debug, PartialEq, Eq)]
pub struct TwoVariableLinearSize {
    pub intercept: i64,
    pub slope1: i64,
    pub slope2: i64,
}

/// `intercept + slope * (x + y)`.
#[derive(Debug, PartialEq, Eq)]
pub struct AddedSizes {
    pub intercept: i64,
    pub slope: i64,
}

/// `intercept + slope * max(minimum, x - y)`.
#[derive(Debug, PartialEq, Eq)]
pub struct SubtractedSizes {
    pub intercept: i64,
    pub slope: i64,
    pub minimum: i64,
}

/// `intercept + slope * (x * y)`.
#[derive(Debug, PartialEq, Eq)]
pub struct MultipliedSizes {
    pub intercept: i64,
    pub slope: i64,
}

/// `intercept + slope * min(x, y)`.
#[derive(Debug, PartialEq, Eq)]
pub struct MinSize {
    pub intercept: i64,
    pub slope: i64,
}

/// `intercept + slope * max(x, y)`.
#[derive(Debug, PartialEq, Eq)]
pub struct MaxSize {
    pub intercept: i64,
    pub slope: i64,
}

/// `intercept + slope * x` on the diagonal `x == y`, `constant` elsewhere.
#[derive(Debug, PartialEq, Eq)]
pub struct ConstantOrLinear {
    pub constant: i64,
    pub intercept: i64,
    pub slope: i64,
}

/// `coeff_0 + coeff_1 * x + coeff_2 * x * x`.
#[derive(Debug, PartialEq, Eq)]
pub struct QuadraticFunction {
    pub coeff_0: i64,
    pub coeff_1: i64,
    pub coeff_2: i64,
}

/// `max(minimum, c00 + c10*x + c01*y + c20*x*x + c11*x*y + c02*y*y)`.
#[derive(Debug, PartialEq, Eq)]
pub struct TwoArgumentsQuadraticFunction {
    pub minimum: i64,
    pub coeff_00: i64,
    pub coeff_01: i64,
    pub coeff_02: i64,
    pub coeff_10: i64,
    pub coeff_11: i64,
    pub coeff_20: i64,
}

/// `c00 + c10 * x + c01 * y + c11 * x * y`.
#[derive(Debug, PartialEq, Eq)]
pub struct WithInteraction {
    pub c00: i64,
    pub c10: i64,
    pub c01: i64,
    pub c11: i64,
}

/// The cost of modular exponentiation.
#[derive(Debug, PartialEq, Eq)]
pub struct ExpModCost {
    pub coeff_00: i64,
    pub coeff_11: i64,
    pub coeff_12: i64,
}

/// Saturating `a + b`.
pub open spec fn sadd(a: i64, b: i64) -> i64 {
    clamp_i64(a + b)
}

/// Saturating `a * b`.
pub open spec fn smul(a: i64, b: i64) -> i64 {
    clamp_i64(a * b)
}

/// Saturating `slope * x + intercept`.
pub open spec fn linear(intercept: i64, slope: i64, x: i64) -> i64 {
    sadd(smul(slope, x), intercept)
}

/// Saturating `c0 + c1 * x + c2 * x * x`.
pub open spec fn quadratic(c0: i64, c1: i64, c2: i64, x: i64) -> i64 {
    sadd(sadd(c0, smul(c1, x)), smul(smul(c2, x), x))
}

fn linear_exec(intercept: i64, slope: i64, x: i64) -> (r: i64)
    ensures
        r == linear(intercept, slope, x),
{
    saturating_add_i64(saturating_mul_i64(slope, x), intercept)
}

fn quadratic_exec(c0: i64, c1: i64, c2: i64, x: i64) -> (r: i64)
    ensures
        r == quadratic(c0, c1, c2, x),
{
    saturating_add_i64(
        saturating_add_i64(c0, saturating_mul_i64(c1, x)),
        saturating_mul_i64(saturating_mul_i64(c2, x), x),
    )
}

// ---------------------------------------------------------------------------
// One argument
// ---------------------------------------------------------------------------

/// Cost functions of one argument size.
#[derive(Debug, PartialEq, Eq)]
pub enum OneArgument {
    Constant(i64),
    Linear(LinearSize),
    Quadratic(QuadraticFunction),
}

impl Cost<1> for OneArgument {
    open spec fn cost_of(&self, args: Seq<i64>) -> i64 {
        let x = args[0];
        match self {
            OneArgument::Constant(c) => *c,
            OneArgument::Linear(m) => linear(m.intercept, m.slope, x),
            OneArgument::Quadratic(q) => quadratic(q.coeff_0, q.coeff_1, q.coeff_2, x),
        }
    }

    fn cost(&self, args: [i64; 1]) -> (r: i64) {
        let x = args[0];
        match self {
            OneArgument::Constant(c) => *c,
            OneArgument::Linear(m) => linear_exec(m.intercept, m.slope, x),
            OneArgument::Quadratic(q) => quadratic_exec(q.coeff_0, q.coeff_1, q.coeff_2, x),
        }
    }
}

/// Memory and CPU cost functions of one argument size.
pub type OneArgumentCosting = Costing<1, OneArgument>;

impl Costing<1, OneArgument> {
    /// The constant cost `c`.
    pub fn constant_cost(c: i64) -> (r: OneArgument)
        ensures
            r == OneArgument::Constant(c),
    {
        OneArgument::Constant(c)
    }

    /// `intercept + slope * x`.
    pub fn linear_cost(intercept: i64, slope: i64) -> (r: OneArgument)
        ensures
            r == OneArgument::Linear(LinearSize { intercept, slope }),
    {
        OneArgument::Linear(LinearSize { intercept, slope })
    }

    /// `coeff_0 + coeff_1 * x + coeff_2 * x * x`.
    pub fn quadratic_cost(coeff_0: i64, coeff_1: i64, coeff_2: i64) -> (r: OneArgument)
        ensures
            r == OneArgument::Quadratic(QuadraticFunction { coeff_0, coeff_1, coeff_2 }),
    {
        OneArgument::Quadratic(QuadraticFunction { coeff_0, coeff_1, coeff_2 })
    }
}

// ---------------------------------------------------------------------------
// Two arguments
// ---------------------------------------------------------------------------

/// Cost functions of two argument sizes `x` and `y`.
#[derive(Debug, PartialEq, Eq)]
pub enum TwoArguments {
    ConstantCost(i64),
    LinearInX(LinearSize),
    LinearInY(LinearSize),
    AddedSizes(AddedSizes),
    SubtractedSizes(SubtractedSizes),
    MultipliedSizes(MultipliedSizes),
    MinSize(MinSize),
    MaxSize(MaxSize),
    LinearOnDiagonal(ConstantOrLinear),
    QuadraticInY(QuadraticFunction),
    ConstAboveDiagonalIntoQuadraticXAndY(i64, TwoArgumentsQuadraticFunction),
    ConstAboveDiagonalIntoMultipliedSizes(i64, MultipliedSizes),
    WithInteraction(WithInteraction),
}

/// Saturating `max(minimum, c00 + c10*x + c01*y + c20*x*x + c11*x*y + c02*y*y)`.
pub open spec fn quadratic_x_and_y(q: TwoArgumentsQuadraticFunction, x: i64, y: i64) -> i64 {
    let s = sadd(
        sadd(
            sadd(sadd(sadd(q.coeff_00, smul(q.coeff_10, x)), smul(q.coeff_01, y)), smul(smul(q.coeff_20, x), x)),
            smul(smul(q.coeff_11, x), y),
        ),
        smul(smul(q.coeff_02, y), y),
    );
    if q.minimum >= s { q.minimum } else { s }
}

/// What [`TwoArguments::cost`] returns for sizes `x` and `y`.
pub open spec fn two_arguments_cost(f: TwoArguments, x: i64, y: i64) -> i64 {
    match f {
        TwoArguments::ConstantCost(c) => c,
        TwoArguments::LinearInX(l) => linear(l.intercept, l.slope, x),
        TwoArguments::LinearInY(l) => linear(l.intercept, l.slope, y),
        TwoArguments::AddedSizes(s) => linear(s.intercept, s.slope, sadd(x, y)),
        TwoArguments::SubtractedSizes(s) => {
            let d = clamp_i64(x - y);
            linear(s.intercept, s.slope, if s.minimum >= d { s.minimum } else { d })
        },
        TwoArguments::MultipliedSizes(s) => linear(s.intercept, s.slope, smul(x, y)),
        TwoArguments::MinSize(s) => linear(s.intercept, s.slope, if x <= y { x } else { y }),
        TwoArguments::MaxSize(s) => linear(s.intercept, s.slope, if x >= y { x } else { y }),
        TwoArguments::LinearOnDiagonal(l) => {
            if x == y {
                sadd(smul(x, l.slope), l.intercept)
            } else {
                l.constant
            }
        },
        TwoArguments::QuadraticInY(q) => quadratic(q.coeff_0, q.coeff_1, q.coeff_2, y),
        TwoArguments::ConstAboveDiagonalIntoQuadraticXAndY(c, q) => {
            if x < y {
                c
            } else {
                quadratic_x_and_y(q, x, y)
            }
        },
        TwoArguments::ConstAboveDiagonalIntoMultipliedSizes(c, s) => {
            if x < y {
                c
            } else {
                linear(s.intercept, s.slope, smul(x, y))
            }
        },
        TwoArguments::WithInteraction(w) => sadd(
            sadd(sadd(w.c00, smul(w.c10, x)), smul(w.c01, y)),
            smul(smul(w.c11, x), y),
        ),
    }
}

impl Cost<2> for TwoArguments {
    open spec fn cost_of(&self, args: Seq<i64>) -> i64 {
        two_arguments_cost(*self, args[0], args[1])
    }

    fn cost(&self, args: [i64; 2]) -> (r: i64) {
        let x = args[0];
        let y = args[1];
        match self {
            TwoArguments::ConstantCost(c) => *c,
            TwoArguments::LinearInX(l) => linear_exec(l.intercept, l.slope, x),
            TwoArguments::LinearInY(l) => linear_exec(l.intercept, l.slope, y),
            TwoArguments::AddedSizes(s) => linear_exec(s.intercept, s.slope, saturating_add_i64(x, y)),
            TwoArguments::SubtractedSizes(s) => linear_exec(
                s.intercept,
                s.slope,
                max_i64(s.minimum, saturating_sub_i64(x, y)),
            ),
            TwoArguments::MultipliedSizes(s) => linear_exec(s.intercept, s.slope, saturating_mul_i64(x, y)),
            TwoArguments::MinSize(s) => linear_exec(s.intercept, s.slope, min_i64(x, y)),
            TwoArguments::MaxSize(s) => linear_exec(s.intercept, s.slope, max_i64(x, y)),
            TwoArguments::LinearOnDiagonal(l) => {
                if x == y {
                    saturating_add_i64(saturating_mul_i64(x, l.slope), l.intercept)
                } else {
                    l.constant
                }
            },
            TwoArguments::QuadraticInY(q) => quadratic_exec(q.coeff_0, q.coeff_1, q.coeff_2, y),
            TwoArguments::ConstAboveDiagonalIntoQuadraticXAndY(c, q) => {
                if x < y {
                    *c
                } else {
                    let s1 = saturating_add_i64(q.coeff_00, saturating_mul_i64(q.coeff_10, x));
                    let s2 = saturating_add_i64(s1, saturating_mul_i64(q.coeff_01, y));
                    let s3 = saturating_add_i64(s2, saturating_mul_i64(saturating_mul_i64(q.coeff_20, x), x));
                    let s4 = saturating_add_i64(s3, saturating_mul_i64(saturating_mul_i64(q.coeff_11, x), y));
                    let s5 = saturating_add_i64(s4, saturating_mul_i64(saturating_mul_i64(q.coeff_02, y), y));
                    max_i64(q.minimum, s5)
                }
            },
            TwoArguments::ConstAboveDiagonalIntoMultipliedSizes(c, s) => {
                if x < y {
                    *c
                } else {
                    linear_exec(s.intercept, s.slope, saturating_mul_i64(x, y))
                }
            },
            TwoArguments::WithInteraction(w) => {
                let s1 = saturating_add_i64(w.c00, saturating_mul_i64(w.c10, x));
                let s2 = saturating_add_i64(s1, saturating_mul_i64(w.c01, y));
                saturating_add_i64(s2, saturating_mul_i64(saturating_mul_i64(w.c11, x), y))
            },
        }
    }
}

/// Memory and CPU cost functions of two argument sizes.
pub type TwoArgumentsCosting = Costing<2, TwoArguments>;

impl Costing<2, TwoArguments> {
    /// The constant cost `c`.
    pub fn constant_cost(c: i64) -> (r: TwoArguments)
        ensures
            r == TwoArguments::ConstantCost(c),
    {
        TwoArguments::ConstantCost(c)
    }

    /// `intercept + slope * max(x, y)`.
    pub fn max_size(intercept: i64, slope: i64) -> (r: TwoArguments)
        ensures
            r == TwoArguments::MaxSize(MaxSize { intercept, slope }),
    {
        TwoArguments::MaxSize(MaxSize { intercept, slope })
    }

    /// `intercept + slope * min(x, y)`.
    pub fn min_size(intercept: i64, slope: i64) -> (r: TwoArguments)
        ensures
            r == TwoArguments::MinSize(MinSize { intercept, slope }),
    {
        TwoArguments::MinSize(MinSize { intercept, slope })
    }

    /// `intercept + slope * (x + y)`.
    pub fn added_sizes(intercept: i64, slope: i64) -> (r: TwoArguments)
        ensures
            r == TwoArguments::AddedSizes(AddedSizes { intercept, slope }),
    {
        TwoArguments::AddedSizes(AddedSizes { intercept, slope })
    }

    /// `intercept + slope * (x * y)`.
    pub fn multiplied_sizes(intercept: i64, slope: i64) -> (r: TwoArguments)
        ensures
            r == TwoArguments::MultipliedSizes(MultipliedSizes { intercept, slope }),
    {
        TwoArguments::MultipliedSizes(MultipliedSizes { intercept, slope })
    }

    /// `intercept + slope * max(minimum, x - y)`.
    pub fn subtracted_sizes(intercept: i64, slope: i64, minimum: i64) -> (r: TwoArguments)
        ensures
            r == TwoArguments::SubtractedSizes(SubtractedSizes { intercept, slope, minimum }),
    {
        TwoArguments::SubtractedSizes(SubtractedSizes { intercept, slope, minimum })
    }

    /// Linear on the diagonal, `constant` elsewhere.
    pub fn linear_on_diagonal(constant: i64, intercept: i64, slope: i64) -> (r: TwoArguments)
        ensures
            r == TwoArguments::LinearOnDiagonal(ConstantOrLinear { constant, intercept, slope }),
    {
        TwoArguments::LinearOnDiagonal(ConstantOrLinear { constant, intercept, slope })
    }

    /// `constant` above the diagonal (`x < y`), a quadratic in `x` and `y` elsewhere.
    pub fn const_above_diagonal_into_quadratic_x_and_y(
        constant: i64,
        minimum: i64,
        coeff_00: i64,
        coeff_01: i64,
        coeff_02: i64,
        coeff_10: i64,
        coeff_11: i64,
        coeff_20: i64,
    ) -> (r: TwoArguments)
        ensures
            r == TwoArguments::ConstAboveDiagonalIntoQuadraticXAndY(
                constant,
                TwoArgumentsQuadraticFunction {
                    minimum,
                    coeff_00,
                    coeff_01,
                    coeff_02,
                    coeff_10,
                    coeff_11,
                    coeff_20,
                },
            ),
    {
        TwoArguments::ConstAboveDiagonalIntoQuadraticXAndY(
            constant,
            TwoArgumentsQuadraticFunction {
                minimum,
                coeff_00,
                coeff_01,
                coeff_02,
                coeff_10,
                coeff_11,
                coeff_20,
            },
        )
    }

    /// `intercept + slope * y`.
    pub fn linear_in_y(intercept: i64, slope: i64) -> (r: TwoArguments)
        ensures
            r == TwoArguments::LinearInY(LinearSize { intercept, slope }),
    {
        TwoArguments::LinearInY(LinearSize { intercept, slope })
    }

    /// `intercept + slope * x`.
    pub fn linear_in_x(intercept: i64, slope: i64) -> (r: TwoArguments)
        ensures
            r == TwoArguments::LinearInX(LinearSize { intercept, slope }),
    {
        TwoArguments::LinearInX(LinearSize { intercept, slope })
    }

    /// `coeff_0 + coeff_1 * y + coeff_2 * y * y`.
    pub fn quadratic_in_y(coeff_0: i64, coeff_1: i64, coeff_2: i64) -> (r: TwoArguments)
        ensures
            r == TwoArguments::QuadraticInY(QuadraticFunction { coeff_0, coeff_1, coeff_2 }),
    {
        TwoArguments::QuadraticInY(QuadraticFunction { coeff_0, coeff_1, coeff_2 })
    }

    /// `constant` above the diagonal (`x < y`), `intercept + slope * x * y` elsewhere.
    pub fn const_above_diagonal_into_multiplied_sizes(constant: i64, intercept: i64, slope: i64) -> (r: TwoArguments)
        ensures
            r == TwoArguments::ConstAboveDiagonalIntoMultipliedSizes(
                constant,
                MultipliedSizes { intercept, slope },
            ),
    {
        TwoArguments::ConstAboveDiagonalIntoMultipliedSizes(
            constant,
            MultipliedSizes { intercept, slope },
        )
    }

    /// `c00 + c10 * x + c01 * y + c11 * x * y`.
    pub fn with_interaction(c00: i64, c10: i64, c01: i64, c11: i64) -> (r: TwoArguments)
        ensures
            r == TwoArguments::WithInteraction(WithInteraction { c00, c10, c01, c11 }),
    {
        TwoArguments::WithInteraction(WithInteraction { c00, c10, c01, c11 })
    }
}

// ---------------------------------------------------------------------------
// Three arguments
// ---------------------------------------------------------------------------

/// Cost functions of three argument sizes `x`, `y` and `z`.
#[derive(Debug, PartialEq, Eq)]
pub enum ThreeArguments {
    ConstantCost(i64),
    LinearInX(LinearSize),
    LinearInY(LinearSize),
    LinearInZ(LinearSize),
    QuadraticInZ(QuadraticFunction),
    LiteralInYorLinearInZ(LinearSize),
    LinearInYAndZ(TwoVariableLinearSize),
    LinearInMaxYZ(LinearSize),
    ExpModCost(ExpModCost),
}

/// `c / 2` rounded toward zero, as machine division of `i64` does.
pub open spec fn half_toward_zero(c: i64) -> i64 {
    if c >= 0 {
        (c / 2) as i64
    } else {
        (-((-c) / 2)) as i64
    }
}

/// What [`ThreeArguments::cost`] returns for sizes `x`, `y` and `z`.
pub open spec fn three_arguments_cost(f: ThreeArguments, x: i64, y: i64, z: i64) -> i64 {
    match f {
        ThreeArguments::ConstantCost(c) => c,
        ThreeArguments::LinearInX(l) => sadd(smul(x, l.slope), l.intercept),
        ThreeArguments::LinearInY(l) => sadd(smul(y, l.slope), l.intercept),
        ThreeArguments::LinearInZ(l) => sadd(smul(z, l.slope), l.intercept),
        ThreeArguments::QuadraticInZ(q) => quadratic(q.coeff_0, q.coeff_1, q.coeff_2, z),
        ThreeArguments::LiteralInYorLinearInZ(l) => {
            if y == 0 {
                linear(l.intercept, l.slope, z)
            } else {
                y
            }
        },
        ThreeArguments::LinearInYAndZ(l) => sadd(sadd(smul(y, l.slope1), smul(z, l.slope2)), l.intercept),
        ThreeArguments::LinearInMaxYZ(l) => sadd(smul(if y >= z { y } else { z }, l.slope), l.intercept),
        ThreeArguments::ExpModCost(c) => {
            let cost = sadd(
                sadd(c.coeff_00, smul(smul(c.coeff_11, y), z)),
                smul(smul(smul(c.coeff_12, y), z), z),
            );
            if x <= z {
                cost
            } else {
                sadd(cost, half_toward_zero(cost))
            }
        },
    }
}

impl Cost<3> for ThreeArguments {
    open spec fn cost_of(&self, args: Seq<i64>) -> i64 {
        three_arguments_cost(*self, args[0], args[1], args[2])
    }

    fn cost(&self, args: [i64; 3]) -> (r: i64) {
        let x = args[0];
        let y = args[1];
        let z = args[2];
        match self {
            ThreeArguments::ConstantCost(c) => *c,
            ThreeArguments::LinearInX(l) => saturating_add_i64(saturating_mul_i64(x, l.slope), l.intercept),
            ThreeArguments::LinearInY(l) => saturating_add_i64(saturating_mul_i64(y, l.slope), l.intercept),
            ThreeArguments::LinearInZ(l) => saturating_add_i64(saturating_mul_i64(z, l.slope), l.intercept),
            ThreeArguments::QuadraticInZ(q) => quadratic_exec(q.coeff_0, q.coeff_1, q.coeff_2, z),
            ThreeArguments::LiteralInYorLinearInZ(l) => {
                if y == 0 {
                    linear_exec(l.intercept, l.slope, z)
                } else {
                    y
                }
            },
            ThreeArguments::LinearInYAndZ(l) => saturating_add_i64(
                saturating_add_i64(saturating_mul_i64(y, l.slope1), saturating_mul_i64(z, l.slope2)),
                l.intercept,
            ),
            ThreeArguments::LinearInMaxYZ(l) => saturating_add_i64(
                saturating_mul_i64(max_i64(y, z), l.slope),
                l.intercept,
            ),
            ThreeArguments::ExpModCost(c) => {
                let cost = saturating_add_i64(
                    saturating_add_i64(c.coeff_00, saturating_mul_i64(saturating_mul_i64(c.coeff_11, y), z)),
                    saturating_mul_i64(saturating_mul_i64(saturating_mul_i64(c.coeff_12, y), z), z),
                );
                if x <= z {
                    cost
                } else {
                    saturating_add_i64(cost, cost / 2)
                }
            },
        }
    }
}

/// Memory and CPU cost functions of three argument sizes.
pub type ThreeArgumentsCosting = Costing<3, ThreeArguments>;

impl Costing<3, ThreeArguments> {
    /// The constant cost `c`.
    pub fn constant_cost(c: i64) -> (r: ThreeArguments)
        ensures
            r == ThreeArguments::ConstantCost(c),
    {
        ThreeArguments::ConstantCost(c)
    }

    /// `intercept + slope * z`.
    pub fn linear_in_z(intercept: i64, slope: i64) -> (r: ThreeArguments)
        ensures
            r == ThreeArguments::LinearInZ(LinearSize { intercept, slope }),
    {
        ThreeArguments::LinearInZ(LinearSize { intercept, slope })
    }

    /// `intercept + slope * y`.
    pub fn linear_in_y(intercept: i64, slope: i64) -> (r: ThreeArguments)
        ensures
            r == ThreeArguments::LinearInY(LinearSize { intercept, slope }),
    {
        ThreeArguments::LinearInY(LinearSize { intercept, slope })
    }

    /// The literal `y` when it is non-zero, otherwise `intercept + slope * z`.
    pub fn literal_in_y_or_linear_in_z(intercept: i64, slope: i64) -> (r: ThreeArguments)
        ensures
            r == ThreeArguments::LiteralInYorLinearInZ(LinearSize { intercept, slope }),
    {
        ThreeArguments::LiteralInYorLinearInZ(LinearSize { intercept, slope })
    }

    /// `coeff_0 + coeff_1 * z + coeff_2 * z * z`.
    pub fn quadratic_in_z(coeff_0: i64, coeff_1: i64, coeff_2: i64) -> (r: ThreeArguments)
        ensures
            r == ThreeArguments::QuadraticInZ(QuadraticFunction { coeff_0, coeff_1, coeff_2 }),
    {
        ThreeArguments::QuadraticInZ(QuadraticFunction { coeff_0, coeff_1, coeff_2 })
    }

    /// `intercept + slope1 * y + slope2 * z`.
    pub fn linear_in_y_and_z(intercept: i64, slope1: i64, slope2: i64) -> (r: ThreeArguments)
        ensures
            r == ThreeArguments::LinearInYAndZ(TwoVariableLinearSize { intercept, slope1, slope2 }),
    {
        ThreeArguments::LinearInYAndZ(TwoVariableLinearSize { intercept, slope1, slope2 })
    }

    /// `intercept + slope * max(y, z)`.
    pub fn linear_in_max_y_z(intercept: i64, slope: i64) -> (r: ThreeArguments)
        ensures
            r == ThreeArguments::LinearInMaxYZ(LinearSize { intercept, slope }),
    {
        ThreeArguments::LinearInMaxYZ(LinearSize { intercept, slope })
    }

    /// `intercept + slope * x`.
    pub fn linear_in_x(intercept: i64, slope: i64) -> (r: ThreeArguments)
        ensures
            r == ThreeArguments::LinearInX(LinearSize { intercept, slope }),
    {
        ThreeArguments::LinearInX(LinearSize { intercept, slope })
    }

    /// The cost of modular exponentiation.
    pub fn exp_mod_cost(coeff_00: i64, coeff_11: i64, coeff_12: i64) -> (r: ThreeArguments)
        ensures
            r == ThreeArguments::ExpModCost(ExpModCost { coeff_00, coeff_11, coeff_12 }),
    {
        ThreeArguments::ExpModCost(ExpModCost { coeff_00, coeff_11, coeff_12 })
    }
}

// ---------------------------------------------------------------------------
// Six arguments
// ---------------------------------------------------------------------------

/// Cost functions of six argument sizes.
#[derive(Debug, PartialEq, Eq)]
pub enum SixArguments {
    ConstantCost(i64),
}

impl Cost<6> for SixArguments {
    open spec fn cost_of(&self, args: Seq<i64>) -> i64 {
        match self {
            SixArguments::ConstantCost(c) => *c,
        }
    }

    fn cost(&self, args: [i64; 6]) -> (r: i64) {
        match self {
            SixArguments::ConstantCost(c) => *c,
        }
    }
}

/// Memory and CPU cost functions of six argument sizes.
pub type SixArgumentsCosting = Costing<6, SixArguments>;

impl Costing<6, SixArguments> {
    /// The constant cost `c`.
    pub fn constant_cost(c: i64) -> (r: SixArguments)
        ensures
            r == SixArguments::ConstantCost(c),
    {
        SixArguments::ConstantCost(c)
    }
}

} // verus!
