//! Bit-level model of IEEE-754 binary64 (double-precision) values.
//!
//! A value is carried as its 64-bit pattern. The mathematical content of a
//! pattern is captured by [`fval`]: an integer giving the represented
//! magnitude in units of 2^-1074 (the smallest positive subnormal), negated
//! when the sign bit is set. Every finite double is an integer multiple of
//! that unit, so the model is exact. The two infinities map to integers
//! beyond every finite magnitude, in a way consistent with the IEEE order,
//! so one integer comparison models the hardware comparison for every
//! non-NaN pair of patterns.

use vstd::prelude::*;
use vstd::arithmetic::power2::*;
use vstd::arithmetic::div_mod::*;
use vstd::arithmetic::mul::*;

verus! {

/// Sign bit of the encoding: 2^63.
pub const SIGN_BIT: u64 = 0x8000_0000_0000_0000;

/// Weight of the exponent field: 2^52.
pub const FRAC_WEIGHT: u64 = 0x10_0000_0000_0000;

/// Exponent field value reserved for infinities and NaNs.
pub const EXP_SPECIAL: u64 = 0x7FF;

/// Whether the sign bit of the pattern is set.
pub open spec fn sgn(b: u64) -> bool {
    b >= SIGN_BIT
}

/// The pattern with the sign bit cleared: exponent and fraction fields.
pub open spec fn mfield(b: u64) -> u64 {
    b % SIGN_BIT
}

/// The biased exponent field.
pub open spec fn efield(b: u64) -> u64 {
    mfield(b) / FRAC_WEIGHT
}

/// The fraction (trailing significand) field.
pub open spec fn ffield(b: u64) -> u64 {
    mfield(b) % FRAC_WEIGHT
}

pub open spec fn is_nan_bits(b: u64) -> bool {
    efield(b) == EXP_SPECIAL && ffield(b) != 0
}

pub open spec fn is_inf_bits(b: u64) -> bool {
    efield(b) == EXP_SPECIAL && ffield(b) == 0
}

pub open spec fn is_finite_bits(b: u64) -> bool {
    efield(b) != EXP_SPECIAL
}

/// Zero of either sign.
pub open spec fn is_zero_bits(b: u64) -> bool {
    mfield(b) == 0
}

/// Magnitude of the pattern in units of 2^-1074.
///
/// A subnormal pattern (exponent field 0) represents fraction * 2^-1074;
/// a normal pattern represents (fraction + 2^52) * 2^(exponent - 1075).
/// Applied to an infinity the formula yields 2^52 * 2^2046, which exceeds
/// the largest finite magnitude, so the same formula orders infinities
/// correctly against every finite pattern.
pub open spec fn mag(b: u64) -> int {
    if efield(b) == 0 {
        ffield(b) as int
    } else {
        (ffield(b) + FRAC_WEIGHT) * pow2((efield(b) - 1) as nat)
    }
}

/// Signed value of the pattern in units of 2^-1074 (meaningful when the
/// pattern is not a NaN). Both zeros map to 0, so the IEEE equality of
/// positive and negative zero falls out of integer equality.
pub open spec fn fval(b: u64) -> int {
    if sgn(b) {
        -mag(b)
    } else {
        mag(b)
    }
}

/// The magnitude of any pattern is non-negative.
pub proof fn lemma_mag_nonneg(b: u64)
    ensures
        mag(b) >= 0,
{
    if efield(b) != 0 {
        lemma_pow2_pos((efield(b) - 1) as nat);
        lemma_mul_nonnegative((ffield(b) + FRAC_WEIGHT) as int, pow2((efield(b) - 1) as nat) as int);
    }
}

/// The magnitude of a pattern is zero exactly when its exponent and
/// fraction fields are both zero.
pub proof fn lemma_mag_zero(b: u64)
    ensures
        mag(b) == 0 <==> mfield(b) == 0,
{
    let fw = FRAC_WEIGHT as int;
    let m = mfield(b) as int;
    lemma_fundamental_div_mod(m, fw);
    if efield(b) == 0 {
        assert(m == ffield(b));
    } else {
        lemma_pow2_pos((efield(b) - 1) as nat);
        lemma_mul_strictly_positive(
            (ffield(b) + FRAC_WEIGHT) as int,
            pow2((efield(b) - 1) as nat) as int,
        );
    }
}

/// The magnitude is strictly increasing in the magnitude field: ordering
/// positive patterns as integers orders the values they represent. This is
/// the fact that makes integer comparison of patterns model the IEEE
/// comparison.
pub proof fn lemma_mag_strictly_monotone(a: u64, b: u64)
    requires
        mfield(a) < mfield(b),
    ensures
        mag(a) < mag(b),
{
    let fw = FRAC_WEIGHT as int;
    let m1 = mfield(a) as int;
    let m2 = mfield(b) as int;
    let e1 = efield(a);
    let e2 = efield(b);
    let f1 = ffield(a) as int;
    let f2 = ffield(b) as int;
    lemma_fundamental_div_mod(m1, fw);
    lemma_fundamental_div_mod(m2, fw);
    lemma_mod_division_less_than_divisor(m1, fw);
    lemma_mod_division_less_than_divisor(m2, fw);
    lemma_div_is_ordered(m1, m2, fw);
    if e1 == e2 {
        if e1 == 0 {
        } else {
            lemma_pow2_pos((e1 - 1) as nat);
            lemma_mul_strict_inequality(f1 + fw, f2 + fw, pow2((e1 - 1) as nat) as int);
        }
    } else {
        let p2 = pow2((e2 - 1) as nat) as int;
        lemma_pow2_pos((e2 - 1) as nat);
        // fw * p2 <= (f2 + fw) * p2 == mag(b)
        lemma_mul_inequality(fw, f2 + fw, p2);
        if e1 == 0 {
            // mag(a) == f1 < fw == fw * 1 <= fw * p2
            lemma_mul_left_inequality(fw, 1, p2);
        } else {
            let p1 = pow2((e1 - 1) as nat) as int;
            lemma_pow2_pos((e1 - 1) as nat);
            // mag(a) < (2 * fw) * p1
            lemma_mul_strict_inequality(f1 + fw, 2 * fw, p1);
            // (2 * fw) * p1 == fw * pow2(e1)
            lemma2_to64();
            lemma2_to64_rest();
            lemma_pow2_adds(53, (e1 - 1) as nat);
            lemma_pow2_adds(52, e1 as nat);
            assert((2 * fw) * p1 == fw * pow2(e1 as nat));
            // pow2(e1) <= p2, so fw * pow2(e1) <= fw * p2
            if e1 < e2 - 1 {
                lemma_pow2_strictly_increases(e1 as nat, (e2 - 1) as nat);
            }
            lemma_mul_left_inequality(fw, pow2(e1 as nat) as int, p2);
        }
    }
}

/// Decodes a pattern with a clear sign bit and a non-zero exponent field,
/// given as exponent and fraction fields, into its magnitude.
pub proof fn lemma_decode_positive(b: u64, e: u64, f: u64)
    requires
        b == e * FRAC_WEIGHT + f,
        1 <= e <= EXP_SPECIAL,
        f < FRAC_WEIGHT,
    ensures
        !sgn(b),
        efield(b) == e,
        ffield(b) == f,
        mag(b) == (f + FRAC_WEIGHT) * pow2((e - 1) as nat),
        fval(b) == (f + FRAC_WEIGHT) * pow2((e - 1) as nat),
{
    lemma_mul_inequality(e as int, EXP_SPECIAL as int, FRAC_WEIGHT as int);
    assert(b < SIGN_BIT);
    lemma_small_mod(b as nat, SIGN_BIT as nat);
    lemma_fundamental_div_mod_converse(b as int, FRAC_WEIGHT as int, e as int, f as int);
}

/// Recombining a sign bit with a magnitude field yields a pattern with that
/// sign and that magnitude field.
pub proof fn lemma_compose(s: bool, m: u64)
    requires
        m < SIGN_BIT,
    ensures
        ({
            let b = ((if s { SIGN_BIT } else { 0u64 }) + m) as u64;
            sgn(b) == s && mfield(b) == m
        }),
{
    lemma_small_mod(m as nat, SIGN_BIT as nat);
    if s {
        lemma_mod_add_multiples_vanish(m as int, SIGN_BIT as int);
    }
}

/// Splitting a pattern at the sign bit: the pattern is its sign bit plus its
/// magnitude field.
pub proof fn lemma_split(b: u64)
    ensures
        b == (if sgn(b) { SIGN_BIT } else { 0u64 }) + mfield(b),
{
    if sgn(b) {
        lemma_small_mod((b - SIGN_BIT) as nat, SIGN_BIT as nat);
        lemma_mod_sub_multiples_vanish(b as int, SIGN_BIT as int);
    } else {
        lemma_small_mod(b as nat, SIGN_BIT as nat);
    }
}

/// The integer nearest to half of `m`, ties going to the even integer: the
/// rounding that binary64 division by two performs on a scaled magnitude.
pub open spec fn half_rne(m: int) -> int {
    if m % 2 == 0 {
        m / 2
    } else if (m / 2) % 2 == 0 {
        m / 2
    } else {
        m / 2 + 1
    }
}

/// The rounded half of a non-negative magnitude is positive exactly when
/// the magnitude is at least two: only the smallest positive magnitude
/// rounds down to zero when halved.
pub proof fn lemma_half_rne_pos(m: int)
    requires
        m >= 0,
    ensures
        half_rne(m) > 0 <==> m >= 2,
{
    lemma_fundamental_div_mod(m, 2);
}

/// Halving then doubling a non-negative even magnitude is exact: nothing is
/// lost by a reparameterization that halves such a value and scales it back.
pub proof fn lemma_halve_twice_roundtrip(m: int)
    requires
        m >= 0,
        m % 2 == 0,
    ensures
        2 * half_rne(m) == m,
{
    lemma_fundamental_div_mod(m, 2);
}

/// The rounded half keeps the order of non-negative magnitudes: halving a
/// pair of values never swaps them.
pub proof fn lemma_half_rne_monotone(m1: int, m2: int)
    requires
        0 <= m1 <= m2,
    ensures
        half_rne(m1) <= half_rne(m2),
{
    lemma_fundamental_div_mod(m1, 2);
    lemma_fundamental_div_mod(m2, 2);
    lemma_mod_division_less_than_divisor(m1, 2);
    lemma_mod_division_less_than_divisor(m2, 2);
    lemma_div_is_ordered(m1, m2, 2);
    // the halves are within one of the quotients, and a shared quotient
    // with an odd smaller value forces equality
    assert(half_rne(m1) <= m1 / 2 + 1);
    assert(half_rne(m2) >= m2 / 2);
    if m1 / 2 == m2 / 2 && m1 % 2 == 1 {
        assert(m1 == m2);
    }
}

/// IEEE less-than on patterns: false when either side is a NaN, otherwise
/// the order of the represented values.
pub open spec fn lt_bits(a: u64, b: u64) -> bool {
    !is_nan_bits(a) && !is_nan_bits(b) && fval(a) < fval(b)
}

/// IEEE less-or-equal on patterns.
pub open spec fn le_bits(a: u64, b: u64) -> bool {
    !is_nan_bits(a) && !is_nan_bits(b) && fval(a) <= fval(b)
}

/// IEEE equality on patterns: NaN equals nothing, and the two zeros are
/// equal to each other.
pub open spec fn eq_bits(a: u64, b: u64) -> bool {
    !is_nan_bits(a) && !is_nan_bits(b) && fval(a) == fval(b)
}

/// A pattern carries the value of positive infinity exactly when it is the
/// positive-infinity pattern: values determine sign and magnitude field.
pub proof fn lemma_eq_pos_inf(b: u64)
    ensures
        (fval(b) == fval(0x7FF0_0000_0000_0000u64)) == (is_inf_bits(b) && !sgn(b)),
{
    let inf = 0x7FF0_0000_0000_0000u64;
    lemma_small_mod(inf as nat, SIGN_BIT as nat);
    lemma_fundamental_div_mod_converse(inf as int, FRAC_WEIGHT as int, EXP_SPECIAL as int, 0);
    lemma_fundamental_div_mod(mfield(b) as int, FRAC_WEIGHT as int);
    lemma_mag_nonneg(b);
    lemma_mag_nonneg(inf);
    lemma_mag_zero(b);
    lemma_mag_zero(inf);
    if mfield(b) < mfield(inf) {
        lemma_mag_strictly_monotone(b, inf);
    }
    if mfield(inf) < mfield(b) {
        lemma_mag_strictly_monotone(inf, b);
    }
}

/// The comparisons form a total order on the non-NaN patterns: reflexive,
/// antisymmetric up to IEEE equality (which identifies the two zeros),
/// transitive, and total.
pub proof fn lemma_le_total_order(a: u64, b: u64, c: u64)
    requires
        !is_nan_bits(a),
        !is_nan_bits(b),
        !is_nan_bits(c),
    ensures
        le_bits(a, a),
        le_bits(a, b) && le_bits(b, a) ==> eq_bits(a, b),
        le_bits(a, b) && le_bits(b, c) ==> le_bits(a, c),
        le_bits(a, b) || le_bits(b, a),
        lt_bits(a, b) == (le_bits(a, b) && !eq_bits(a, b)),
{
}

/// An IEEE-754 double-precision value, carried as its bit pattern.
#[derive(Clone, Copy, Debug, PartialEq, Eq, Structural)]
pub struct Double {
    pub bits: u64,
}

impl Double {
    /// Wraps a raw 64-bit pattern.
    pub fn from_bits(bits: u64) -> (r: Double)
        ensures
            r.bits == bits,
    {
        Double { bits }
    }

    /// The raw 64-bit pattern.
    pub fn to_bits(&self) -> (r: u64)
        ensures
            r == self.bits,
    {
        self.bits
    }

    pub fn is_nan(&self) -> (r: bool)
        ensures
            r == is_nan_bits(self.bits),
    {
        let m = self.bits % SIGN_BIT;
        m / FRAC_WEIGHT == EXP_SPECIAL && m % FRAC_WEIGHT != 0
    }

    pub fn is_infinite(&self) -> (r: bool)
        ensures
            r == is_inf_bits(self.bits),
    {
        let m = self.bits % SIGN_BIT;
        m / FRAC_WEIGHT == EXP_SPECIAL && m % FRAC_WEIGHT == 0
    }

    pub fn is_finite(&self) -> (r: bool)
        ensures
            r == is_finite_bits(self.bits),
    {
        (self.bits % SIGN_BIT) / FRAC_WEIGHT != EXP_SPECIAL
    }

    pub fn is_sign_negative(&self) -> (r: bool)
        ensures
            r == sgn(self.bits),
    {
        self.bits >= SIGN_BIT
    }

    /// Whether the pattern is a zero of either sign.
    pub fn is_zero(&self) -> (r: bool)
        ensures
            r == is_zero_bits(self.bits),
    {
        self.bits % SIGN_BIT == 0
    }

    /// IEEE less-than.
    pub fn lt(&self, other: &Double) -> (r: bool)
        ensures
            r == lt_bits(self.bits, other.bits),
    {
        if self.is_nan() || other.is_nan() {
            return false;
        }
        let sa = self.bits >= SIGN_BIT;
        let sb = other.bits >= SIGN_BIT;
        let ma = self.bits % SIGN_BIT;
        let mb = other.bits % SIGN_BIT;
        proof {
            lemma_mag_nonneg(self.bits);
            lemma_mag_nonneg(other.bits);
            lemma_mag_zero(self.bits);
            lemma_mag_zero(other.bits);
            if ma < mb {
                lemma_mag_strictly_monotone(self.bits, other.bits);
            }
            if mb < ma {
                lemma_mag_strictly_monotone(other.bits, self.bits);
            }
        }
        if !sa && !sb {
            ma < mb
        } else if sa && sb {
            mb < ma
        } else if sa {
            // self is non-positive and other non-negative: strictly less
            // unless both are zeros.
            !(ma == 0 && mb == 0)
        } else {
            false
        }
    }

    /// IEEE less-or-equal.
    pub fn le(&self, other: &Double) -> (r: bool)
        ensures
            r == le_bits(self.bits, other.bits),
    {
        if self.is_nan() || other.is_nan() {
            false
        } else {
            !other.lt(self)
        }
    }

    /// IEEE greater-than.
    pub fn gt(&self, other: &Double) -> (r: bool)
        ensures
            r == lt_bits(other.bits, self.bits),
    {
        other.lt(self)
    }

    /// IEEE greater-or-equal.
    pub fn ge(&self, other: &Double) -> (r: bool)
        ensures
            r == le_bits(other.bits, self.bits),
    {
        other.le(self)
    }

    /// IEEE equality. Distinct from `==` on `Double`, which compares the
    /// patterns bit for bit: here a NaN equals nothing, not even itself,
    /// and the two zeros are equal to each other.
    pub fn eq_value(&self, other: &Double) -> (r: bool)
        ensures
            r == eq_bits(self.bits, other.bits),
    {
        if self.is_nan() || other.is_nan() {
            false
        } else {
            !self.lt(other) && !other.lt(self)
        }
    }

    /// Half of the value: the binary64 quotient of the value by two, with
    /// the round-to-nearest, ties-to-even rounding the hardware applies.
    /// The quotient is exact whenever the scaled magnitude is even, which
    /// holds everywhere above the subnormal and smallest-normal range;
    /// infinities and NaNs come back unchanged.
    pub fn halve(&self) -> (r: Double)
        ensures
            sgn(r.bits) == sgn(self.bits),
            is_nan_bits(r.bits) == is_nan_bits(self.bits),
            efield(self.bits) == EXP_SPECIAL ==> r.bits == self.bits,
            is_finite_bits(self.bits) ==> is_finite_bits(r.bits) && mag(r.bits) == half_rne(
                mag(self.bits),
            ) && efield(r.bits) < 0x7FE,
            is_finite_bits(self.bits) && efield(self.bits) >= 2 ==> efield(r.bits) == efield(
                self.bits,
            ) - 1,
            efield(self.bits) <= 1 ==> efield(r.bits) <= 1,
    {
        let sa = self.bits >= SIGN_BIT;
        let m = self.bits % SIGN_BIT;
        let sbit: u64 = if sa {
            SIGN_BIT
        } else {
            0
        };
        let e = m / FRAC_WEIGHT;
        proof {
            lemma_split(self.bits);
        }
        if e == EXP_SPECIAL {
            Double { bits: self.bits }
        } else if e >= 2 {
            let mp = m - FRAC_WEIGHT;
            proof {
                let fw = FRAC_WEIGHT as int;
                let f = ffield(self.bits) as int;
                lemma_fundamental_div_mod(m as int, fw);
                lemma_mod_division_less_than_divisor(m as int, fw);
                lemma_fundamental_div_mod_converse(mp as int, fw, e as int - 1, f);
                lemma_compose(sa, mp);
                lemma_pow2_adds(1, (e - 2) as nat);
                lemma2_to64();
                let p = pow2((e - 2) as nat) as int;
                // the magnitude is even: it is twice the halved magnitude
                assert((f + fw) * (2 * p) == 2 * ((f + fw) * p)) by {
                    lemma_mul_is_associative(f + fw, 2, p);
                    lemma_mul_is_commutative(f + fw, 2);
                    lemma_mul_is_associative(2, f + fw, p);
                }
                lemma_mod_multiples_basic((f + fw) * p, 2);
                lemma_mul_is_commutative((f + fw) * p, 2);
                lemma_div_multiples_vanish((f + fw) * p, 2);
            }
            Double { bits: sbit + mp }
        } else {
            // in the subnormal and smallest-normal range the magnitude field
            // is itself the scaled magnitude, so halve it as an integer,
            // rounding ties to the even candidate
            let h0: u64 = m / 2;
            let h: u64 = if m % 2 == 1 && h0 % 2 == 1 {
                h0 + 1
            } else {
                h0
            };
            proof {
                let fw = FRAC_WEIGHT as int;
                lemma_fundamental_div_mod(m as int, fw);
                lemma_mod_division_less_than_divisor(m as int, fw);
                if e == 1 {
                    lemma2_to64();
                    lemma_mul_basics((ffield(self.bits) + FRAC_WEIGHT) as int);
                }
                assert(mag(self.bits) == m);
                lemma_fundamental_div_mod(m as int, 2);
                lemma_compose(sa, h);
                if h < FRAC_WEIGHT {
                    lemma_basic_div(h as int, fw);
                    lemma_small_mod(h as nat, fw as nat);
                } else {
                    lemma_div_by_self(fw);
                    lemma_mod_self_0(fw);
                    lemma2_to64();
                    lemma_mul_basics(fw);
                }
            }
            Double { bits: sbit + h }
        }
    }

    /// Twice the value: exact in binary64 up to the overflow threshold,
    /// beyond which the product is an infinity of the same sign; infinities
    /// and NaNs come back unchanged.
    pub fn twice(&self) -> (r: Double)
        ensures
            sgn(r.bits) == sgn(self.bits),
            is_nan_bits(r.bits) == is_nan_bits(self.bits),
            efield(self.bits) == EXP_SPECIAL ==> r.bits == self.bits,
            efield(self.bits) < 0x7FE ==> is_finite_bits(r.bits) && mag(r.bits) == 2 * mag(
                self.bits,
            ),
            efield(self.bits) == 0x7FE ==> is_inf_bits(r.bits),
            efield(r.bits) <= efield(self.bits) + 1,
            1 <= efield(self.bits) < 0x7FE ==> efield(r.bits) == efield(self.bits) + 1,
            efield(self.bits) == 0 ==> efield(r.bits) <= 1,
    {
        let sa = self.bits >= SIGN_BIT;
        let m = self.bits % SIGN_BIT;
        let sbit: u64 = if sa {
            SIGN_BIT
        } else {
            0
        };
        let e = m / FRAC_WEIGHT;
        proof {
            lemma_split(self.bits);
        }
        if e == EXP_SPECIAL {
            Double { bits: self.bits }
        } else if e == 0x7FE {
            proof {
                lemma_fundamental_div_mod_converse(
                    0x7FF0_0000_0000_0000,
                    FRAC_WEIGHT as int,
                    0x7FF,
                    0,
                );
                lemma_compose(sa, 0x7FF0_0000_0000_0000);
            }
            Double { bits: sbit + 0x7FF0_0000_0000_0000 }
        } else if e == 0 {
            proof {
                let fw = FRAC_WEIGHT as int;
                lemma_fundamental_div_mod(m as int, fw);
                lemma_mod_division_less_than_divisor(m as int, fw);
            }
            let mp = 2 * m;
            proof {
                let fw = FRAC_WEIGHT as int;
                lemma_compose(sa, mp);
                assert(mag(self.bits) == m);
                if mp >= FRAC_WEIGHT {
                    lemma_fundamental_div_mod_converse(mp as int, fw, 1, mp as int - fw);
                    lemma2_to64();
                    lemma_mul_basics(mp as int);
                    assert(mag((sbit + mp) as u64) == mp);
                } else {
                    lemma_basic_div(mp as int, fw);
                    lemma_small_mod(mp as nat, fw as nat);
                }
            }
            Double { bits: sbit + mp }
        } else {
            proof {
                let fw = FRAC_WEIGHT as int;
                lemma_fundamental_div_mod(m as int, fw);
                lemma_mod_division_less_than_divisor(m as int, fw);
                lemma_mul_inequality(e as int + 1, 0x7FE, fw);
            }
            let mp = m + FRAC_WEIGHT;
            proof {
                let fw = FRAC_WEIGHT as int;
                let f = ffield(self.bits) as int;
                lemma_fundamental_div_mod_converse(mp as int, fw, e as int + 1, f);
                lemma_compose(sa, mp);
                lemma_pow2_adds(1, (e - 1) as nat);
                lemma2_to64();
                let p = pow2((e - 1) as nat) as int;
                assert((f + fw) * (2 * p) == 2 * ((f + fw) * p)) by {
                    lemma_mul_is_associative(f + fw, 2, p);
                    lemma_mul_is_commutative(f + fw, 2);
                    lemma_mul_is_associative(2, f + fw, p);
                }
                assert(pow2(e as nat) == 2 * p);
            }
            Double { bits: sbit + mp }
        }
    }

    /// Positive zero.
    pub fn zero() -> (r: Double)
        ensures
            r.bits == 0u64,
            fval(r.bits) == 0,
            is_finite_bits(r.bits),
            !is_nan_bits(r.bits),
            !sgn(r.bits),
    {
        proof {
            lemma_small_mod(0nat, SIGN_BIT as nat);
            lemma_small_mod(0nat, FRAC_WEIGHT as nat);
            lemma_basic_div(0int, FRAC_WEIGHT as int);
        }
        Double { bits: 0 }
    }

    /// One half.
    pub fn one_half() -> (r: Double)
        ensures
            r.bits == 0x3FE0_0000_0000_0000u64,
            2 * fval(r.bits) == pow2(1074),
            is_finite_bits(r.bits),
            !is_nan_bits(r.bits),
            !sgn(r.bits),
    {
        proof {
            lemma_decode_positive(0x3FE0_0000_0000_0000, 0x3FE, 0);
            lemma2_to64_rest();
            lemma_pow2_adds(52, 1021);
            lemma_pow2_adds(1, 1073);
            lemma2_to64();
        }
        Double { bits: 0x3FE0_0000_0000_0000 }
    }

    /// One.
    pub fn one() -> (r: Double)
        ensures
            r.bits == 0x3FF0_0000_0000_0000u64,
            fval(r.bits) == pow2(1074),
            is_finite_bits(r.bits),
            !is_nan_bits(r.bits),
            !sgn(r.bits),
    {
        proof {
            lemma_decode_positive(0x3FF0_0000_0000_0000, 0x3FF, 0);
            lemma2_to64_rest();
            lemma_pow2_adds(52, 1022);
        }
        Double { bits: 0x3FF0_0000_0000_0000 }
    }

    /// Two.
    pub fn two() -> (r: Double)
        ensures
            r.bits == 0x4000_0000_0000_0000u64,
            fval(r.bits) == 2 * pow2(1074),
            is_finite_bits(r.bits),
            !is_nan_bits(r.bits),
            !sgn(r.bits),
    {
        proof {
            lemma_decode_positive(0x4000_0000_0000_0000, 0x400, 0);
            lemma2_to64_rest();
            lemma_pow2_adds(52, 1023);
            lemma_pow2_adds(1, 1074);
            lemma2_to64();
        }
        Double { bits: 0x4000_0000_0000_0000 }
    }

    /// Four.
    pub fn four() -> (r: Double)
        ensures
            r.bits == 0x4010_0000_0000_0000u64,
            fval(r.bits) == 4 * pow2(1074),
            is_finite_bits(r.bits),
            !is_nan_bits(r.bits),
            !sgn(r.bits),
    {
        proof {
            lemma_decode_positive(0x4010_0000_0000_0000, 0x401, 0);
            lemma2_to64_rest();
            lemma_pow2_adds(52, 1024);
            lemma_pow2_adds(2, 1074);
            lemma2_to64();
        }
        Double { bits: 0x4010_0000_0000_0000 }
    }

    /// Six.
    pub fn six() -> (r: Double)
        ensures
            r.bits == 0x4018_0000_0000_0000u64,
            fval(r.bits) == 6 * pow2(1074),
            is_finite_bits(r.bits),
            !is_nan_bits(r.bits),
            !sgn(r.bits),
    {
        proof {
            lemma_decode_positive(0x4018_0000_0000_0000, 0x401, 0x8_0000_0000_0000);
            lemma2_to64_rest();
            // fraction plus hidden bit: 3 * 2^51
            assert((0x8_0000_0000_0000 + FRAC_WEIGHT) as int == 3 * pow2(51));
            lemma_mul_is_associative(3, pow2(51) as int, pow2(1024) as int);
            lemma_pow2_adds(51, 1024);
            lemma_pow2_adds(1, 1074);
            lemma2_to64();
        }
        Double { bits: 0x4018_0000_0000_0000 }
    }

    /// Positive infinity.
    pub fn infinity() -> (r: Double)
        ensures
            r.bits == 0x7FF0_0000_0000_0000u64,
            is_inf_bits(r.bits),
            !is_nan_bits(r.bits),
            !sgn(r.bits),
    {
        proof {
            lemma_decode_positive(0x7FF0_0000_0000_0000, 0x7FF, 0);
        }
        Double { bits: 0x7FF0_0000_0000_0000 }
    }

    /// A quiet NaN.
    pub fn nan() -> (r: Double)
        ensures
            is_nan_bits(r.bits),
    {
        proof {
            lemma_decode_positive(0x7FF8_0000_0000_0000, 0x7FF, 0x8_0000_0000_0000);
        }
        Double { bits: 0x7FF8_0000_0000_0000 }
    }
}

} // verus!
