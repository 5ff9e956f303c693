//! The chi-squared distribution: a special case of the Gamma distribution
//! with shape half the degrees of freedom and rate one half. The
//! reparameterization, the validation, the domain bounds, and every moment
//! that binary64 arithmetic computes exactly (the mean and the variance are
//! scalings by powers of two) are verified here; the transcendental queries
//! (density, distribution function, entropy, skewness, median values) take
//! the parameters and the regime decisions from this module.

use vstd::prelude::*;
use vstd::arithmetic::power2::*;
use vstd::arithmetic::mul::*;
use crate::error::StatsError;
use crate::fp::Double;
use crate::fp::EXP_SPECIAL;
use crate::fp::FRAC_WEIGHT;
use crate::fp::efield;
use crate::fp::eq_bits;
use crate::fp::fval;
use crate::fp::half_rne;
use crate::fp::is_finite_bits;
use crate::fp::is_inf_bits;
use crate::fp::is_nan_bits;
use crate::fp::le_bits;
use crate::fp::lt_bits;
use crate::fp::mag;
use crate::fp::sgn;
use crate::fp::lemma_half_rne_pos;
use crate::fp::lemma_halve_twice_roundtrip;
use crate::fp::lemma_mag_nonneg;
use crate::gamma::Gamma;

verus! {

/// A chi-squared distribution with `freedom` degrees of freedom, stored as
/// the equivalent Gamma distribution with shape `freedom / 2` and rate one
/// half, to which every query delegates.
#[derive(Clone, Copy, Debug, PartialEq, Eq, Structural)]
pub struct ChiSquared {
    pub freedom: Double,
    pub g: Gamma,
}

impl ChiSquared {
    /// The stored gamma value is the reparameterization of the stored
    /// degrees of freedom, and all parameters are admissible: what the
    /// validating constructor establishes.
    pub open spec fn is_valid(&self) -> bool {
        &&& !is_nan_bits(self.freedom.bits)
        &&& !sgn(self.freedom.bits)
        &&& fval(self.freedom.bits) > 1
        &&& self.g.rate.bits == 0x3FE0_0000_0000_0000u64
        &&& !sgn(self.g.shape.bits)
        &&& !is_nan_bits(self.g.shape.bits)
        &&& (is_finite_bits(self.freedom.bits) ==> is_finite_bits(self.g.shape.bits) && mag(
            self.g.shape.bits,
        ) == half_rne(mag(self.freedom.bits)) && efield(self.g.shape.bits) < 0x7FE)
        &&& (is_finite_bits(self.freedom.bits) && efield(self.freedom.bits) >= 2 ==> efield(
            self.g.shape.bits,
        ) == efield(self.freedom.bits) - 1)
        &&& (efield(self.freedom.bits) <= 1 ==> efield(self.g.shape.bits) <= 1)
        &&& (efield(self.freedom.bits) == EXP_SPECIAL ==> self.g.shape.bits == self.freedom.bits)
        &&& self.g.is_valid()
    }

    /// Constructs a chi-squared distribution with `freedom` degrees of
    /// freedom by validating the equivalent gamma parameters, shape
    /// `freedom / 2` and rate one half. Fails exactly when `freedom` is a
    /// NaN or its halved value is not strictly positive: every
    /// non-positive `freedom`, and also the smallest positive subnormal,
    /// whose half rounds to zero.
    pub fn new(freedom: Double) -> (r: Result<ChiSquared, StatsError>)
        ensures
            (r is Ok) == (!is_nan_bits(freedom.bits) && fval(freedom.bits) > 1),
            r is Ok ==> (r->Ok_0).freedom == freedom && (r->Ok_0).is_valid(),
            r is Err ==> r->Err_0 == StatsError::BadParams,
    {
        let shape = freedom.halve();
        let rate = Double::one_half();
        proof {
            lemma_pow2_pos(1074);
            lemma_mag_nonneg(freedom.bits);
            lemma_mag_nonneg(shape.bits);
            if is_finite_bits(freedom.bits) {
                lemma_half_rne_pos(mag(freedom.bits));
            } else if !is_nan_bits(freedom.bits) {
                // an infinite magnitude is far above one
                lemma_pow2_pos((EXP_SPECIAL - 1) as nat);
                lemma_mul_left_inequality(
                    FRAC_WEIGHT as int,
                    1,
                    pow2((EXP_SPECIAL - 1) as nat) as int,
                );
            }
        }
        match Gamma::new(shape, rate) {
            Ok(g) => Ok(ChiSquared { freedom, g }),
            Err(_) => Err(StatsError::BadParams),
        }
    }

    /// The degrees of freedom.
    pub fn freedom(&self) -> (r: Double)
        ensures
            r == self.freedom,
    {
        self.freedom
    }

    /// The shape of the underlying Gamma distribution: half the freedom.
    pub fn shape(&self) -> (r: Double)
        ensures
            r == self.g.shape,
    {
        self.g.shape()
    }

    /// The rate of the underlying Gamma distribution: one half.
    pub fn rate(&self) -> (r: Double)
        ensures
            r == self.g.rate,
    {
        self.g.rate()
    }

    /// The infimum of the support: zero.
    pub fn min(&self) -> (r: Double)
        ensures
            r.bits == 0u64,
            fval(r.bits) == 0,
    {
        Double::zero()
    }

    /// The supremum of the support: positive infinity.
    pub fn max(&self) -> (r: Double)
        ensures
            is_inf_bits(r.bits),
            !sgn(r.bits),
    {
        Double::infinity()
    }

    /// The mean: the degrees of freedom. Delegates to the gamma mean, shape
    /// over rate; with the rate one half the quotient is an exact doubling
    /// of the shape, so the freedom is recovered exactly whenever its
    /// scaled magnitude is even — every value above the smallest-normal
    /// range — and an infinite freedom gives an infinite mean.
    pub fn mean(&self) -> (r: Double)
        ensures
            self.is_valid() ==> !is_nan_bits(r.bits) && !sgn(r.bits),
            self.is_valid() && is_finite_bits(self.freedom.bits) ==> is_finite_bits(r.bits) && mag(
                r.bits,
            ) == 2 * half_rne(mag(self.freedom.bits)),
            self.is_valid() && is_finite_bits(self.freedom.bits) && mag(self.freedom.bits) % 2
                == 0 ==> fval(r.bits) == fval(self.freedom.bits),
            self.is_valid() && efield(self.freedom.bits) == EXP_SPECIAL ==> is_inf_bits(r.bits),
    {
        let r = self.g.shape().twice();
        proof {
            if self.is_valid() && is_finite_bits(self.freedom.bits) && mag(self.freedom.bits) % 2
                == 0 {
                lemma_halve_twice_roundtrip(mag(self.freedom.bits));
            }
        }
        r
    }

    /// The variance: twice the degrees of freedom. Delegates to the gamma
    /// variance, shape over the square of the rate; with the rate one half
    /// that is two exact doublings of the shape. The result overflows to
    /// infinity for freedoms near the top of the finite range, exactly as
    /// the binary64 computation does.
    pub fn variance(&self) -> (r: Double)
        ensures
            self.is_valid() ==> !is_nan_bits(r.bits) && !sgn(r.bits),
            self.is_valid() && is_finite_bits(self.freedom.bits) ==> (is_finite_bits(r.bits)
                <==> efield(self.freedom.bits) < 0x7FE),
            self.is_valid() && is_finite_bits(self.freedom.bits) && is_finite_bits(r.bits) ==> mag(
                r.bits,
            ) == 4 * half_rne(mag(self.freedom.bits)),
            self.is_valid() && is_finite_bits(self.freedom.bits) && mag(self.freedom.bits) % 2 == 0
                && is_finite_bits(r.bits) ==> fval(r.bits) == 2 * fval(self.freedom.bits),
            self.is_valid() && !is_finite_bits(r.bits) ==> is_inf_bits(r.bits),
    {
        let m = self.g.shape().twice();
        let r = m.twice();
        proof {
            if self.is_valid() && is_finite_bits(self.freedom.bits) {
                // the doubled shape carries the freedom's exponent field, so
                // the second doubling overflows exactly at the top binade
                let ek = efield(self.freedom.bits);
                if ek >= 3 {
                    assert(efield(self.g.shape.bits) == ek - 1);
                    assert(efield(m.bits) == ek);
                } else {
                    assert(efield(self.g.shape.bits) <= 1);
                    assert(efield(m.bits) <= 2);
                }
                if mag(self.freedom.bits) % 2 == 0 {
                    lemma_halve_twice_roundtrip(mag(self.freedom.bits));
                }
            }
        }
        r
    }

    /// The regime split of the median: below one degree of freedom the
    /// median is computed from the small-argument series expansion, from
    /// one upward by the large-sample approximation, freedom minus two
    /// thirds. The split is an accuracy policy, not an error.
    pub fn median_uses_series(&self) -> (r: bool)
        ensures
            r == lt_bits(self.freedom.bits, 0x3FF0_0000_0000_0000u64),
            r == (!is_nan_bits(self.freedom.bits) && fval(self.freedom.bits) < pow2(1074)),
    {
        self.freedom.lt(&Double::one())
    }

    /// The density at the zero boundary of the support, delegated to the
    /// underlying gamma: the rate (one half) at two degrees of freedom,
    /// where the shape is one, and zero for every other freedom.
    pub fn pdf_at_zero(&self) -> (r: Double)
        ensures
            eq_bits(self.g.shape.bits, 0x3FF0_0000_0000_0000u64) ==> r == self.g.rate,
            !eq_bits(self.g.shape.bits, 0x3FF0_0000_0000_0000u64) ==> r.bits == 0u64,
    {
        self.g.pdf_at_zero()
    }

    /// Whether `x` lies in the support: the density and the distribution
    /// function have a hard boundary at zero, and a query below it is a
    /// precondition violation, not a recoverable error.
    pub fn in_support(&self, x: &Double) -> (r: bool)
        ensures
            r == le_bits(0u64, x.bits),
            r == (!is_nan_bits(x.bits) && fval(x.bits) >= 0),
    {
        Double::zero().le(x)
    }
}

} // verus!
