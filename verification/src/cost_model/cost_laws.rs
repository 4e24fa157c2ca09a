//! What each cost function charges, as a formula in its argument sizes.
//!
//! Cost arithmetic saturates at the bounds of `i64`; where no step leaves
//! that range each cost function is the plain formula below.

use vstd::prelude::*;

use super::costing::{
    AddedSizes, ConstantOrLinear, Cost, ExpModCost, LinearSize, MaxSize, MinSize, MultipliedSizes,
    OneArgument, QuadraticFunction, SubtractedSizes, ThreeArguments, TwoArguments,
    TwoArgumentsQuadraticFunction, TwoVariableLinearSize, WithInteraction,
};

verus! {

/// Whether `v` lies in the range of `i64`.
pub open spec fn fits(v: int) -> bool {
    i64::MIN <= v <= i64::MAX
}

/// Whether `intercept + slope * v` and its product lie in the range of `i64`.
pub open spec fn line_fits(intercept: int, slope: int, v: int) -> bool {
    fits(slope * v) && fits(slope * v + intercept)
}

/// Whether `c0 + c1 * v + c2 * v * v`, its products and its partial sums
/// lie in the range of `i64`.
pub open spec fn parabola_fits(c0: int, c1: int, c2: int, v: int) -> bool {
    fits(c1 * v) && fits(c0 + c1 * v) && fits(c2 * v) && fits(c2 * v * v) && fits(c0 + c1 * v + c2 * v * v)
}

/// The smaller of two sizes.
pub open spec fn smaller(x: int, y: int) -> int {
    if x <= y { x } else { y }
}

/// The larger of two sizes.
pub open spec fn larger(x: int, y: int) -> int {
    if x >= y { x } else { y }
}

// ---------------------------------------------------------------------------
// One argument
// ---------------------------------------------------------------------------

/// A constant cost charges its constant whatever the size.
pub proof fn lemma_one_constant(c: i64, x: i64)
    ensures
        OneArgument::Constant(c).cost_of(seq![x]) == c,
{
}

/// A linear cost charges `intercept + slope * x`.
pub proof fn lemma_one_linear(l: LinearSize, x: i64)
    requires
        line_fits(l.intercept as int, l.slope as int, x as int),
    ensures
        OneArgument::Linear(l).cost_of(seq![x]) == l.intercept + l.slope * x,
{
}

/// A quadratic cost charges `c0 + c1 * x + c2 * x * x`.
pub proof fn lemma_one_quadratic(q: QuadraticFunction, x: i64)
    requires
        parabola_fits(q.coeff_0 as int, q.coeff_1 as int, q.coeff_2 as int, x as int),
    ensures
        OneArgument::Quadratic(q).cost_of(seq![x]) == q.coeff_0 + q.coeff_1 * x + q.coeff_2 * x * x,
{
}

// ---------------------------------------------------------------------------
// Two arguments
// ---------------------------------------------------------------------------

/// A cost linear in the first size ignores the second.
pub proof fn lemma_two_linear_in_x(l: LinearSize, x: i64, y: i64, y2: i64)
    ensures
        TwoArguments::LinearInX(l).cost_of(seq![x, y]) == TwoArguments::LinearInX(l).cost_of(seq![x, y2]),
        line_fits(l.intercept as int, l.slope as int, x as int) ==> TwoArguments::LinearInX(l).cost_of(seq![x, y])
            == l.intercept + l.slope * x,
{
}

/// A cost linear in the second size ignores the first.
pub proof fn lemma_two_linear_in_y(l: LinearSize, x: i64, x2: i64, y: i64)
    ensures
        TwoArguments::LinearInY(l).cost_of(seq![x, y]) == TwoArguments::LinearInY(l).cost_of(seq![x2, y]),
        line_fits(l.intercept as int, l.slope as int, y as int) ==> TwoArguments::LinearInY(l).cost_of(seq![x, y])
            == l.intercept + l.slope * y,
{
}

/// A cost on the smaller size charges `intercept + slope * min(x, y)`: it
/// does not depend on the order of the sizes, nor on the larger one.
pub proof fn lemma_two_min_size(s: MinSize, x: i64, y: i64, z: i64)
    ensures
        TwoArguments::MinSize(s).cost_of(seq![x, y]) == TwoArguments::MinSize(s).cost_of(seq![y, x]),
        x <= y && x <= z ==> TwoArguments::MinSize(s).cost_of(seq![x, y]) == TwoArguments::MinSize(s).cost_of(
            seq![x, z],
        ),
        line_fits(s.intercept as int, s.slope as int, smaller(x as int, y as int)) ==> TwoArguments::MinSize(s).cost_of(
            seq![x, y],
        ) == s.intercept + s.slope * smaller(x as int, y as int),
{
}

/// A cost on the larger size charges `intercept + slope * max(x, y)`: it
/// does not depend on the order of the sizes, nor on the smaller one.
pub proof fn lemma_two_max_size(s: MaxSize, x: i64, y: i64, z: i64)
    ensures
        TwoArguments::MaxSize(s).cost_of(seq![x, y]) == TwoArguments::MaxSize(s).cost_of(seq![y, x]),
        x >= y && x >= z ==> TwoArguments::MaxSize(s).cost_of(seq![x, y]) == TwoArguments::MaxSize(s).cost_of(
            seq![x, z],
        ),
        line_fits(s.intercept as int, s.slope as int, larger(x as int, y as int)) ==> TwoArguments::MaxSize(s).cost_of(
            seq![x, y],
        ) == s.intercept + s.slope * larger(x as int, y as int),
{
}

/// A cost on the sum of the sizes charges `intercept + slope * (x + y)`
/// and does not depend on their order.
pub proof fn lemma_two_added_sizes(s: AddedSizes, x: i64, y: i64)
    ensures
        TwoArguments::AddedSizes(s).cost_of(seq![x, y]) == TwoArguments::AddedSizes(s).cost_of(seq![y, x]),
        fits(x + y) && line_fits(s.intercept as int, s.slope as int, x + y) ==> TwoArguments::AddedSizes(s).cost_of(
            seq![x, y],
        ) == s.intercept + s.slope * (x + y),
{
}

/// A cost on the difference of the sizes charges `intercept + slope *
/// max(minimum, x - y)`.
pub proof fn lemma_two_subtracted_sizes(s: SubtractedSizes, x: i64, y: i64)
    requires
        fits(x - y),
        line_fits(s.intercept as int, s.slope as int, larger(s.minimum as int, x - y)),
    ensures
        TwoArguments::SubtractedSizes(s).cost_of(seq![x, y]) == s.intercept + s.slope * larger(s.minimum as int, x - y),
{
}

/// A cost on the product of the sizes charges `intercept + slope * x * y`.
pub proof fn lemma_two_multiplied_sizes(s: MultipliedSizes, x: i64, y: i64)
    requires
        fits(x * y),
        line_fits(s.intercept as int, s.slope as int, x * y),
    ensures
        TwoArguments::MultipliedSizes(s).cost_of(seq![x, y]) == s.intercept + s.slope * (x * y),
{
}

/// A cost linear on the diagonal charges `intercept + slope * x` for equal
/// sizes and its constant otherwise.
pub proof fn lemma_two_linear_on_diagonal(l: ConstantOrLinear, x: i64, y: i64)
    ensures
        x != y ==> TwoArguments::LinearOnDiagonal(l).cost_of(seq![x, y]) == l.constant,
        x == y && line_fits(l.intercept as int, l.slope as int, x as int) ==> TwoArguments::LinearOnDiagonal(l).cost_of(
            seq![x, y],
        ) == l.intercept + l.slope * x,
{
    assert(x * l.slope == l.slope * x) by (nonlinear_arith);
}

/// A cost quadratic in the second size charges `c0 + c1 * y + c2 * y * y`
/// and ignores the first.
pub proof fn lemma_two_quadratic_in_y(q: QuadraticFunction, x: i64, x2: i64, y: i64)
    ensures
        TwoArguments::QuadraticInY(q).cost_of(seq![x, y]) == TwoArguments::QuadraticInY(q).cost_of(seq![x2, y]),
        parabola_fits(q.coeff_0 as int, q.coeff_1 as int, q.coeff_2 as int, y as int) ==> TwoArguments::QuadraticInY(
            q,
        ).cost_of(seq![x, y]) == q.coeff_0 + q.coeff_1 * y + q.coeff_2 * y * y,
{
}

/// Whether the quadratic of `q` at `x`, `y`, its products and its partial
/// sums lie in the range of `i64`.
pub open spec fn quadratic_xy_fits(q: TwoArgumentsQuadraticFunction, x: int, y: int) -> bool {
    let p1 = q.coeff_00 + q.coeff_10 * x;
    let p2 = p1 + q.coeff_01 * y;
    let p3 = p2 + q.coeff_20 * x * x;
    let p4 = p3 + q.coeff_11 * x * y;
    let p5 = p4 + q.coeff_02 * y * y;
    &&& fits(q.coeff_10 * x) && fits(q.coeff_01 * y)
    &&& fits(q.coeff_20 * x) && fits(q.coeff_20 * x * x)
    &&& fits(q.coeff_11 * x) && fits(q.coeff_11 * x * y)
    &&& fits(q.coeff_02 * y) && fits(q.coeff_02 * y * y)
    &&& fits(p1) && fits(p2) && fits(p3) && fits(p4) && fits(p5)
}

/// Above the diagonal (`x < y`) the cost is its constant; on or below it
/// the quadratic `c00 + c10 x + c01 y + c20 x^2 + c11 x y + c02 y^2`, but
/// never less than its minimum.
pub proof fn lemma_two_above_diagonal_quadratic(c: i64, q: TwoArgumentsQuadraticFunction, x: i64, y: i64)
    ensures
        x < y ==> TwoArguments::ConstAboveDiagonalIntoQuadraticXAndY(c, q).cost_of(seq![x, y]) == c,
        x >= y && quadratic_xy_fits(q, x as int, y as int) ==> TwoArguments::ConstAboveDiagonalIntoQuadraticXAndY(
            c,
            q,
        ).cost_of(seq![x, y]) == larger(
            q.minimum as int,
            q.coeff_00 + q.coeff_10 * x + q.coeff_01 * y + q.coeff_20 * x * x + q.coeff_11 * x * y + q.coeff_02 * y * y,
        ),
        x >= y ==> TwoArguments::ConstAboveDiagonalIntoQuadraticXAndY(c, q).cost_of(seq![x, y]) >= q.minimum,
{
}

/// Above the diagonal (`x < y`) the cost is its constant; on or below it
/// `intercept + slope * x * y`.
pub proof fn lemma_two_above_diagonal_multiplied(c: i64, s: MultipliedSizes, x: i64, y: i64)
    ensures
        x < y ==> TwoArguments::ConstAboveDiagonalIntoMultipliedSizes(c, s).cost_of(seq![x, y]) == c,
        x >= y && fits(x * y) && line_fits(s.intercept as int, s.slope as int, x * y)
            ==> TwoArguments::ConstAboveDiagonalIntoMultipliedSizes(c, s).cost_of(seq![x, y]) == s.intercept
            + s.slope * (x * y),
{
}

/// A cost with an interaction term charges `c00 + c10 x + c01 y + c11 x y`.
pub proof fn lemma_two_with_interaction(w: WithInteraction, x: i64, y: i64)
    requires
        fits(w.c10 * x) && fits(w.c01 * y) && fits(w.c11 * x) && fits(w.c11 * x * y),
        fits(w.c00 + w.c10 * x) && fits(w.c00 + w.c10 * x + w.c01 * y),
        fits(w.c00 + w.c10 * x + w.c01 * y + w.c11 * x * y),
    ensures
        TwoArguments::WithInteraction(w).cost_of(seq![x, y]) == w.c00 + w.c10 * x + w.c01 * y + w.c11 * x * y,
{
}

// ---------------------------------------------------------------------------
// Three arguments
// ---------------------------------------------------------------------------

/// A cost linear in one of three sizes charges `intercept + slope * size`
/// for that size and ignores the other two.
pub proof fn lemma_three_linear(l: LinearSize, x: i64, y: i64, z: i64, x2: i64, y2: i64, z2: i64)
    ensures
        ThreeArguments::LinearInX(l).cost_of(seq![x, y, z]) == ThreeArguments::LinearInX(l).cost_of(seq![x, y2, z2]),
        ThreeArguments::LinearInY(l).cost_of(seq![x, y, z]) == ThreeArguments::LinearInY(l).cost_of(seq![x2, y, z2]),
        ThreeArguments::LinearInZ(l).cost_of(seq![x, y, z]) == ThreeArguments::LinearInZ(l).cost_of(seq![x2, y2, z]),
        line_fits(l.intercept as int, l.slope as int, x as int) ==> ThreeArguments::LinearInX(l).cost_of(seq![x, y, z])
            == l.intercept + l.slope * x,
        line_fits(l.intercept as int, l.slope as int, y as int) ==> ThreeArguments::LinearInY(l).cost_of(seq![x, y, z])
            == l.intercept + l.slope * y,
        line_fits(l.intercept as int, l.slope as int, z as int) ==> ThreeArguments::LinearInZ(l).cost_of(seq![x, y, z])
            == l.intercept + l.slope * z,
{
    assert(x * l.slope == l.slope * x) by (nonlinear_arith);
    assert(y * l.slope == l.slope * y) by (nonlinear_arith);
    assert(z * l.slope == l.slope * z) by (nonlinear_arith);
}

/// A cost quadratic in the third size charges `c0 + c1 z + c2 z^2`.
pub proof fn lemma_three_quadratic_in_z(q: QuadraticFunction, x: i64, y: i64, z: i64)
    requires
        parabola_fits(q.coeff_0 as int, q.coeff_1 as int, q.coeff_2 as int, z as int),
    ensures
        ThreeArguments::QuadraticInZ(q).cost_of(seq![x, y, z]) == q.coeff_0 + q.coeff_1 * z + q.coeff_2 * z * z,
{
}

/// A cost that is the literal second size, or linear in the third where
/// that literal is zero.
pub proof fn lemma_three_literal_in_y(l: LinearSize, x: i64, y: i64, z: i64)
    ensures
        y != 0 ==> ThreeArguments::LiteralInYorLinearInZ(l).cost_of(seq![x, y, z]) == y,
        y == 0 && line_fits(l.intercept as int, l.slope as int, z as int)
            ==> ThreeArguments::LiteralInYorLinearInZ(l).cost_of(seq![x, y, z]) == l.intercept + l.slope * z,
{
}

/// A cost linear in the second and third sizes charges `intercept +
/// slope1 * y + slope2 * z`.
pub proof fn lemma_three_linear_in_y_and_z(l: TwoVariableLinearSize, x: i64, y: i64, z: i64)
    requires
        fits(l.slope1 * y) && fits(l.slope2 * z) && fits(l.slope1 * y + l.slope2 * z),
        fits(l.slope1 * y + l.slope2 * z + l.intercept),
    ensures
        ThreeArguments::LinearInYAndZ(l).cost_of(seq![x, y, z]) == l.intercept + l.slope1 * y + l.slope2 * z,
{
    assert(y * l.slope1 == l.slope1 * y) by (nonlinear_arith);
    assert(z * l.slope2 == l.slope2 * z) by (nonlinear_arith);
}

/// A cost on the larger of the second and third sizes charges `intercept +
/// slope * max(y, z)` and ignores the first.
pub proof fn lemma_three_linear_in_max_yz(l: LinearSize, x: i64, y: i64, z: i64)
    ensures
        ThreeArguments::LinearInMaxYZ(l).cost_of(seq![x, y, z]) == ThreeArguments::LinearInMaxYZ(l).cost_of(seq![x, z, y]),
        line_fits(l.intercept as int, l.slope as int, larger(y as int, z as int))
            ==> ThreeArguments::LinearInMaxYZ(l).cost_of(seq![x, y, z]) == l.intercept + l.slope * larger(y as int, z as int),
{
    assert(y * l.slope == l.slope * y) by (nonlinear_arith);
    assert(z * l.slope == l.slope * z) by (nonlinear_arith);
}

/// Modular exponentiation costs `c00 + c11 y z + c12 y z^2`, and half as
/// much again (rounded toward zero) when the base is larger than the
/// modulus.
pub proof fn lemma_three_exp_mod(e: ExpModCost, x: i64, y: i64, z: i64)
    requires
        fits(e.coeff_11 * y) && fits(e.coeff_11 * y * z),
        fits(e.coeff_12 * y) && fits(e.coeff_12 * y * z) && fits(e.coeff_12 * y * z * z),
        fits(e.coeff_00 + e.coeff_11 * y * z),
        fits(e.coeff_00 + e.coeff_11 * y * z + e.coeff_12 * y * z * z),
        0 <= e.coeff_00 + e.coeff_11 * y * z + e.coeff_12 * y * z * z <= i64::MAX / 2,
    ensures
        ({
            let c = e.coeff_00 + e.coeff_11 * y * z + e.coeff_12 * y * z * z;
            &&& x <= z ==> ThreeArguments::ExpModCost(e).cost_of(seq![x, y, z]) == c
            &&& x > z ==> ThreeArguments::ExpModCost(e).cost_of(seq![x, y, z]) == c + c / 2
        }),
{
}

} // verus!
