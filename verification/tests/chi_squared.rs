//! Construction, delegation, exact moments and regime decisions of the
//! chi-squared distribution.

use statrs::ChiSquared;
use statrs::Double;

fn d(x: f64) -> Double {
    Double::from_bits(x.to_bits())
}

#[test]
fn create_validates_freedom() {
    assert!(ChiSquared::new(d(1.0)).is_ok());
    assert!(ChiSquared::new(d(3.0)).is_ok());
    assert!(ChiSquared::new(d(0.5)).is_ok());
    assert!(ChiSquared::new(d(f64::INFINITY)).is_ok());
    assert!(ChiSquared::new(d(0.0)).is_err());
    assert!(ChiSquared::new(d(-1.0)).is_err());
    assert!(ChiSquared::new(d(f64::NAN)).is_err());
    assert!(ChiSquared::new(d(f64::NEG_INFINITY)).is_err());
}

#[test]
fn create_rejects_the_smallest_subnormal() {
    // the one strictly positive freedom that fails: half of the smallest
    // subnormal rounds to zero, so the derived gamma shape is inadmissible
    let tiny = Double::from_bits(1);
    assert!(ChiSquared::new(tiny).is_err());
    assert!(ChiSquared::new(Double::from_bits(2)).is_ok());
    assert_eq!(f64::from_bits(1) / 2.0, 0.0);
}

#[test]
fn gamma_reparameterization() {
    let n = ChiSquared::new(d(3.0)).unwrap();
    assert_eq!(n.freedom().to_bits(), 3.0f64.to_bits());
    assert_eq!(n.shape().to_bits(), 1.5f64.to_bits());
    assert_eq!(n.rate().to_bits(), 0.5f64.to_bits());
}

#[test]
fn mean_is_the_freedom() {
    let n = ChiSquared::new(d(3.0)).unwrap();
    assert_eq!(n.mean().to_bits(), 3.0f64.to_bits());
    let m = ChiSquared::new(d(11.5)).unwrap();
    assert_eq!(m.mean().to_bits(), 11.5f64.to_bits());
}

#[test]
fn variance_is_twice_the_freedom() {
    let n = ChiSquared::new(d(3.0)).unwrap();
    assert_eq!(n.variance().to_bits(), 6.0f64.to_bits());
    let m = ChiSquared::new(d(0.5)).unwrap();
    assert_eq!(m.variance().to_bits(), 1.0f64.to_bits());
}

#[test]
fn variance_overflows_only_in_the_top_binade() {
    // the largest finite freedom sits in the top exponent range, where
    // doubling twice overflows; one binade down it stays finite
    let top = ChiSquared::new(d(f64::MAX)).unwrap();
    assert!(f64::from_bits(top.variance().to_bits()).is_infinite());
    assert_eq!(top.mean().to_bits(), f64::MAX.to_bits());
    let below = ChiSquared::new(d(f64::MAX / 2.0)).unwrap();
    assert_eq!(below.variance().to_bits(), f64::MAX.to_bits());
}

#[test]
fn density_at_the_zero_boundary() {
    // the gamma boundary policy: the rate at shape one (two degrees of
    // freedom), zero otherwise
    assert_eq!(
        ChiSquared::new(d(2.0)).unwrap().pdf_at_zero().to_bits(),
        0.5f64.to_bits()
    );
    assert_eq!(
        ChiSquared::new(d(3.0)).unwrap().pdf_at_zero().to_bits(),
        0.0f64.to_bits()
    );
    assert_eq!(
        ChiSquared::new(d(0.5)).unwrap().pdf_at_zero().to_bits(),
        0.0f64.to_bits()
    );
}

#[test]
fn support_bounds() {
    let n = ChiSquared::new(d(1.0)).unwrap();
    assert_eq!(n.min().to_bits(), 0.0f64.to_bits());
    assert_eq!(n.max().to_bits(), f64::INFINITY.to_bits());
}

#[test]
fn median_regime_splits_at_one() {
    assert!(ChiSquared::new(d(0.5)).unwrap().median_uses_series());
    assert!(!ChiSquared::new(d(1.0)).unwrap().median_uses_series());
    assert!(!ChiSquared::new(d(2.5)).unwrap().median_uses_series());
    assert!(!ChiSquared::new(d(3.0)).unwrap().median_uses_series());
}

#[test]
fn support_membership() {
    let n = ChiSquared::new(d(3.0)).unwrap();
    assert!(n.in_support(&d(0.0)));
    assert!(n.in_support(&d(4.0)));
    assert!(n.in_support(&d(f64::INFINITY)));
    assert!(!n.in_support(&d(-1.0)));
    assert!(!n.in_support(&d(f64::NAN)));
}
