//! The Fisher–Snedecor (F) distribution: the ratio of two independent
//! scaled chi-squared draws. Validation, domain bounds, and the domain
//! restrictions of every moment are verified here; the transcendental
//! queries (density, distribution function through the regularized
//! incomplete beta function) and the two-draw sampler take the parameters
//! and these decisions from this module.

use vstd::prelude::*;
use vstd::arithmetic::power2::*;
use crate::error::StatsError;
use crate::fp::Double;
use crate::fp::fval;
use crate::fp::is_inf_bits;
use crate::fp::is_nan_bits;
use crate::fp::le_bits;
use crate::fp::lemma_eq_pos_inf;
use crate::fp::sgn;
use crate::gamma::valid_param;

verus! {

/// A Fisher–Snedecor distribution with degrees of freedom `freedom_1` and
/// `freedom_2`. Infinite degrees of freedom are admissible; queries whose
/// limit is not defined at infinity answer NaN, which the per-query
/// predicates below announce.
#[derive(Clone, Copy, Debug, PartialEq, Eq, Structural)]
pub struct FisherSnedecor {
    pub freedom_1: Double,
    pub freedom_2: Double,
}

impl FisherSnedecor {
    /// Both stored degrees of freedom are admissible: not NaN and strictly
    /// positive. What the validating constructor establishes.
    pub open spec fn is_valid(&self) -> bool {
        valid_param(self.freedom_1.bits) && valid_param(self.freedom_2.bits)
    }

    /// Constructs an F-distribution with the given degrees of freedom,
    /// failing exactly when either is a NaN or is not strictly positive.
    pub fn new(freedom_1: Double, freedom_2: Double) -> (r: Result<FisherSnedecor, StatsError>)
        ensures
            (r is Ok) == (valid_param(freedom_1.bits) && valid_param(freedom_2.bits)),
            r is Ok ==> (r->Ok_0).freedom_1 == freedom_1 && (r->Ok_0).freedom_2 == freedom_2 && (
            r->Ok_0).is_valid(),
            r is Err ==> r->Err_0 == StatsError::BadParams,
    {
        if freedom_1.is_nan() || freedom_2.is_nan() {
            Err(StatsError::BadParams)
        } else {
            let zero = Double::zero();
            if freedom_1.le(&zero) || freedom_2.le(&zero) {
                Err(StatsError::BadParams)
            } else {
                Ok(FisherSnedecor { freedom_1, freedom_2 })
            }
        }
    }

    /// The first degree of freedom.
    pub fn freedom_1(&self) -> (r: Double)
        ensures
            r == self.freedom_1,
    {
        self.freedom_1
    }

    /// The second degree of freedom.
    pub fn freedom_2(&self) -> (r: Double)
        ensures
            r == self.freedom_2,
    {
        self.freedom_2
    }

    /// The infimum of the support: zero.
    pub fn min(&self) -> (r: Double)
        ensures
            r.bits == 0u64,
            fval(r.bits) == 0,
    {
        Double::zero()
    }

    /// The supremum of the support: positive infinity.
    pub fn max(&self) -> (r: Double)
        ensures
            is_inf_bits(r.bits),
            !sgn(r.bits),
    {
        Double::infinity()
    }

    /// Whether the distribution function at `x` takes its defined value,
    /// the regularized incomplete beta function at the transformed
    /// argument: when either degree of freedom equals positive infinity or
    /// `x` is infinite of either sign, the answer is NaN instead.
    pub fn cdf_is_defined(&self, x: &Double) -> (r: bool)
        ensures
            r == !((is_inf_bits(self.freedom_1.bits) && !sgn(self.freedom_1.bits)) || (is_inf_bits(
                self.freedom_2.bits,
            ) && !sgn(self.freedom_2.bits)) || is_inf_bits(x.bits)),
    {
        let pos_inf = Double::infinity();
        proof {
            lemma_eq_pos_inf(self.freedom_1.bits);
            lemma_eq_pos_inf(self.freedom_2.bits);
        }
        !(self.freedom_1.eq_value(&pos_inf) || self.freedom_2.eq_value(&pos_inf)
            || x.is_infinite())
    }

    /// Whether the mean is defined: it requires the second degree of
    /// freedom to exceed two. A query outside this domain is a
    /// precondition violation (the moment is mathematically undefined or
    /// infinite), not a recoverable error; inside it, an infinite second
    /// degree of freedom still yields NaN.
    pub fn mean_is_defined(&self) -> (r: bool)
        ensures
            r == (!is_nan_bits(self.freedom_2.bits) && fval(self.freedom_2.bits) > 2 * pow2(1074)),
    {
        self.freedom_2.gt(&Double::two())
    }

    /// Whether the variance and the standard deviation are defined: they
    /// require the second degree of freedom to exceed four.
    pub fn variance_is_defined(&self) -> (r: bool)
        ensures
            r == (!is_nan_bits(self.freedom_2.bits) && fval(self.freedom_2.bits) > 4 * pow2(1074)),
    {
        self.freedom_2.gt(&Double::four())
    }

    /// Whether the skewness is defined: it requires the second degree of
    /// freedom to exceed six.
    pub fn skewness_is_defined(&self) -> (r: bool)
        ensures
            r == (!is_nan_bits(self.freedom_2.bits) && fval(self.freedom_2.bits) > 6 * pow2(1074)),
    {
        self.freedom_2.gt(&Double::six())
    }

    /// Whether the mode is defined: it requires the first degree of
    /// freedom to exceed two.
    pub fn mode_is_defined(&self) -> (r: bool)
        ensures
            r == (!is_nan_bits(self.freedom_1.bits) && fval(self.freedom_1.bits) > 2 * pow2(1074)),
    {
        self.freedom_1.gt(&Double::two())
    }

    /// Whether `x` lies in the support: density queries have the hard
    /// boundary at zero.
    pub fn in_support(&self, x: &Double) -> (r: bool)
        ensures
            r == le_bits(0u64, x.bits),
            r == (!is_nan_bits(x.bits) && fval(x.bits) >= 0),
    {
        Double::zero().le(x)
    }
}

} // verus!
