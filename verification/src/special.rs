//! Exact edge-case policy of the special-function evaluators. The
//! incomplete gamma and incomplete beta functions are approximated by
//! series and continued fractions on the host side, but the policy at the
//! edges of their domains — NaN propagation, the fatal out-of-domain
//! arguments, the exact values at the boundaries, and the collapse at
//! infinite parameters — is a chain of exact binary64 decisions, verified
//! here. The host evaluators decide by matching on these classifications,
//! applied uniformly: NaN propagates on any NaN input; an argument outside
//! the stated domain is a programming error, not a recoverable condition.

use vstd::prelude::*;
use vstd::arithmetic::power2::*;
use crate::fp::Double;
use crate::fp::fval;
use crate::fp::is_inf_bits;
use crate::fp::is_nan_bits;
use crate::fp::is_zero_bits;

verus! {

/// Where an incomplete-gamma query (shape `a`, argument `x`) stands in the
/// evaluator's edge-case policy.
#[derive(Clone, Copy, Debug, PartialEq, Eq, Structural)]
pub enum GammaRegEdge {
    /// A NaN input, or an infinite shape with an infinite argument: the
    /// answer is NaN.
    Undefined,
    /// A negative argument or a non-positive shape: a fatal precondition
    /// violation.
    OutOfDomain,
    /// Argument zero: the regularized lower form is zero and the upper one.
    AtZero,
    /// Infinite shape, finite argument: lower zero, upper one.
    InfiniteShape,
    /// Infinite argument: lower one, upper zero.
    AtInfinity,
    /// Evaluate: the series below the crossover, the continued fraction
    /// above it.
    Interior,
}

/// The edge-case policy of the regularized incomplete gamma evaluators.
pub open spec fn gamma_reg_edge_spec(a: u64, x: u64) -> GammaRegEdge {
    if is_nan_bits(a) || is_nan_bits(x) {
        GammaRegEdge::Undefined
    } else if fval(x) < 0 {
        GammaRegEdge::OutOfDomain
    } else if fval(a) <= 0 {
        GammaRegEdge::OutOfDomain
    } else if is_zero_bits(x) {
        GammaRegEdge::AtZero
    } else if is_inf_bits(a) {
        if is_inf_bits(x) {
            GammaRegEdge::Undefined
        } else {
            GammaRegEdge::InfiniteShape
        }
    } else if is_inf_bits(x) {
        GammaRegEdge::AtInfinity
    } else {
        GammaRegEdge::Interior
    }
}

/// Classifies an incomplete-gamma query against the edge-case policy.
pub fn gamma_reg_edge(a: &Double, x: &Double) -> (r: GammaRegEdge)
    ensures
        r == gamma_reg_edge_spec(a.bits, x.bits),
{
    let zero = Double::zero();
    if a.is_nan() || x.is_nan() {
        GammaRegEdge::Undefined
    } else if x.lt(&zero) {
        GammaRegEdge::OutOfDomain
    } else if a.le(&zero) {
        GammaRegEdge::OutOfDomain
    } else if x.is_zero() {
        GammaRegEdge::AtZero
    } else if a.is_infinite() {
        if x.is_infinite() {
            GammaRegEdge::Undefined
        } else {
            GammaRegEdge::InfiniteShape
        }
    } else if x.is_infinite() {
        GammaRegEdge::AtInfinity
    } else {
        GammaRegEdge::Interior
    }
}

/// Where a regularized-incomplete-beta query (parameters `a`, `b` and
/// argument `x`) stands in the evaluator's edge-case policy.
#[derive(Clone, Copy, Debug, PartialEq, Eq, Structural)]
pub enum BetaRegEdge {
    /// A NaN input, or an infinite parameter away from the boundaries: the
    /// answer is NaN.
    Undefined,
    /// An argument outside the unit interval or a non-positive parameter:
    /// a fatal precondition violation.
    OutOfDomain,
    /// Argument zero: the value is exactly zero.
    AtZero,
    /// Argument one: the value is exactly one.
    AtOne,
    /// Evaluate by the continued fraction, with the symmetry transform past
    /// the conditioning crossover.
    Interior,
}

/// The edge-case policy of the regularized incomplete beta evaluator.
pub open spec fn beta_reg_edge_spec(a: u64, b: u64, x: u64) -> BetaRegEdge {
    if is_nan_bits(a) || is_nan_bits(b) || is_nan_bits(x) {
        BetaRegEdge::Undefined
    } else if fval(x) < 0 || fval(x) > pow2(1074) {
        BetaRegEdge::OutOfDomain
    } else if fval(a) <= 0 || fval(b) <= 0 {
        BetaRegEdge::OutOfDomain
    } else if is_zero_bits(x) {
        BetaRegEdge::AtZero
    } else if fval(x) == pow2(1074) {
        BetaRegEdge::AtOne
    } else if is_inf_bits(a) || is_inf_bits(b) {
        BetaRegEdge::Undefined
    } else {
        BetaRegEdge::Interior
    }
}

/// Classifies a regularized-incomplete-beta query against the edge-case
/// policy.
pub fn beta_reg_edge(a: &Double, b: &Double, x: &Double) -> (r: BetaRegEdge)
    ensures
        r == beta_reg_edge_spec(a.bits, b.bits, x.bits),
{
    let zero = Double::zero();
    let one = Double::one();
    if a.is_nan() || b.is_nan() || x.is_nan() {
        BetaRegEdge::Undefined
    } else if x.lt(&zero) || x.gt(&one) {
        BetaRegEdge::OutOfDomain
    } else if a.le(&zero) || b.le(&zero) {
        BetaRegEdge::OutOfDomain
    } else if x.is_zero() {
        BetaRegEdge::AtZero
    } else if x.eq_value(&one) {
        BetaRegEdge::AtOne
    } else if a.is_infinite() || b.is_infinite() {
        BetaRegEdge::Undefined
    } else {
        BetaRegEdge::Interior
    }
}

} // verus!
