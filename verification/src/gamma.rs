//! Parameter core of the Gamma family, the base of the derived
//! distributions: a validated shape and rate pair, and the decisions the
//! gamma machinery takes from it. The transcendental evaluations (density,
//! distribution function, entropy) and the rejection sampler consume these
//! parameters and decisions from the host side; everything decided here is
//! exact and verified.

use vstd::prelude::*;
use vstd::arithmetic::power2::*;
use crate::error::StatsError;
use crate::fp::Double;
use crate::fp::eq_bits;
use crate::fp::fval;
use crate::fp::is_nan_bits;
use crate::fp::lt_bits;

verus! {

/// A shape or rate parameter is admissible when it is not a NaN and is
/// strictly positive; positive infinity is admissible.
pub open spec fn valid_param(b: u64) -> bool {
    !is_nan_bits(b) && fval(b) > 0
}

/// The regime split of the gamma variate generator on a raw shape: a shape
/// below one cannot be sampled by the squeeze method directly, so the
/// sampler draws at shape plus one and applies the boosting transform.
pub fn shape_uses_boost(shape: &Double) -> (r: bool)
    ensures
        r == lt_bits(shape.bits, 0x3FF0_0000_0000_0000u64),
        r == (!is_nan_bits(shape.bits) && fval(shape.bits) < pow2(1074)),
{
    shape.lt(&Double::one())
}

/// A Gamma distribution in the shape/rate parameterization (rate is the
/// reciprocal of scale). Constructed only through the validating factory,
/// so both parameters are admissible for the object's lifetime.
#[derive(Clone, Copy, Debug, PartialEq, Eq, Structural)]
pub struct Gamma {
    pub shape: Double,
    pub rate: Double,
}

impl Gamma {
    /// Both stored parameters are admissible.
    pub open spec fn is_valid(&self) -> bool {
        valid_param(self.shape.bits) && valid_param(self.rate.bits)
    }

    /// Constructs a Gamma distribution with the given shape and rate,
    /// failing exactly when either parameter is a NaN or is not strictly
    /// positive.
    pub fn new(shape: Double, rate: Double) -> (r: Result<Gamma, StatsError>)
        ensures
            (r is Ok) == (valid_param(shape.bits) && valid_param(rate.bits)),
            r is Ok ==> (r->Ok_0).shape == shape && (r->Ok_0).rate == rate,
            r is Err ==> r->Err_0 == StatsError::BadParams,
    {
        let zero = Double::zero();
        if shape.is_nan() || rate.is_nan() {
            Err(StatsError::BadParams)
        } else if shape.le(&zero) || rate.le(&zero) {
            Err(StatsError::BadParams)
        } else {
            Ok(Gamma { shape, rate })
        }
    }

    /// The shape parameter.
    pub fn shape(&self) -> (r: Double)
        ensures
            r == self.shape,
    {
        self.shape
    }

    /// The rate parameter.
    pub fn rate(&self) -> (r: Double)
        ensures
            r == self.rate,
    {
        self.rate
    }

    /// The regime split of the gamma variate generator at the stored shape:
    /// see [`shape_uses_boost`].
    pub fn uses_boost(&self) -> (r: bool)
        ensures
            r == lt_bits(self.shape.bits, 0x3FF0_0000_0000_0000u64),
            r == (!is_nan_bits(self.shape.bits) && fval(self.shape.bits) < pow2(1074)),
    {
        shape_uses_boost(&self.shape)
    }

    /// The density at the zero boundary of the support: the rate when the
    /// shape is one (the exponential case), zero for every other shape.
    /// This is the evaluator's boundary policy, decided exactly.
    pub fn pdf_at_zero(&self) -> (r: Double)
        ensures
            eq_bits(self.shape.bits, 0x3FF0_0000_0000_0000u64) ==> r == self.rate,
            !eq_bits(self.shape.bits, 0x3FF0_0000_0000_0000u64) ==> r.bits == 0u64,
    {
        if self.shape.eq_value(&Double::one()) {
            self.rate
        } else {
            Double::zero()
        }
    }
}

} // verus!
