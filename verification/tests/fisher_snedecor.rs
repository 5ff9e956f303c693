//! Construction, domain bounds, and moment-domain decisions of the
//! Fisher–Snedecor distribution, and validation and regime decisions of the
//! underlying Gamma parameters.

use statrs::Double;
use statrs::FisherSnedecor;
use statrs::Gamma;

fn d(x: f64) -> Double {
    Double::from_bits(x.to_bits())
}

fn try_create(freedom_1: f64, freedom_2: f64) -> FisherSnedecor {
    let n = FisherSnedecor::new(d(freedom_1), d(freedom_2));
    assert!(n.is_ok());
    n.unwrap()
}

fn create_case(freedom_1: f64, freedom_2: f64) {
    let n = try_create(freedom_1, freedom_2);
    assert_eq!(freedom_1.to_bits(), n.freedom_1().to_bits());
    assert_eq!(freedom_2.to_bits(), n.freedom_2().to_bits());
}

fn bad_create_case(freedom_1: f64, freedom_2: f64) {
    let n = FisherSnedecor::new(d(freedom_1), d(freedom_2));
    assert!(n.is_err());
}

#[test]
fn test_create() {
    create_case(0.1, 0.1);
    create_case(1.0, 0.1);
    create_case(10.0, 0.1);
    create_case(f64::INFINITY, 0.1);
    create_case(0.1, 1.0);
    create_case(1.0, 1.0);
    create_case(10.0, 1.0);
    create_case(f64::INFINITY, 10.0);
    create_case(0.1, f64::INFINITY);
    create_case(1.0, f64::INFINITY);
    create_case(10.0, f64::INFINITY);
    create_case(f64::INFINITY, f64::INFINITY);
}

#[test]
fn test_bad_create() {
    bad_create_case(f64::NAN, f64::NAN);
    bad_create_case(0.0, f64::NAN);
    bad_create_case(-1.0, f64::NAN);
    bad_create_case(-10.0, f64::NAN);
    bad_create_case(f64::NAN, 0.0);
    bad_create_case(0.0, 0.0);
    bad_create_case(-1.0, 0.0);
    bad_create_case(-10.0, 0.0);
    bad_create_case(f64::NAN, -1.0);
    bad_create_case(0.0, -1.0);
    bad_create_case(-1.0, -1.0);
    bad_create_case(-10.0, -1.0);
    bad_create_case(f64::NAN, -10.0);
    bad_create_case(0.0, -10.0);
    bad_create_case(-1.0, -10.0);
    bad_create_case(-10.0, -10.0);
}

#[test]
fn test_min_max() {
    let n = try_create(1.0, 1.0);
    assert_eq!(0.0f64.to_bits(), n.min().to_bits());
    assert_eq!(f64::INFINITY.to_bits(), n.max().to_bits());
}

#[test]
fn moment_domains() {
    // the moments carry domain restrictions on the degrees of freedom;
    // outside them a query is a precondition violation
    assert!(!try_create(0.1, 0.1).mean_is_defined());
    assert!(try_create(0.1, 10.0).mean_is_defined());
    assert!(try_create(0.1, f64::INFINITY).mean_is_defined());
    assert!(!try_create(0.1, 2.0).mean_is_defined());
    assert!(!try_create(0.1, 0.1).variance_is_defined());
    assert!(try_create(0.1, 10.0).variance_is_defined());
    assert!(!try_create(0.1, 4.0).variance_is_defined());
    assert!(!try_create(0.1, 0.1).skewness_is_defined());
    assert!(try_create(0.1, 10.0).skewness_is_defined());
    assert!(!try_create(0.1, 6.0).skewness_is_defined());
    assert!(!try_create(0.1, 0.1).mode_is_defined());
    assert!(try_create(10.0, 0.1).mode_is_defined());
    assert!(!try_create(2.0, 0.1).mode_is_defined());
}

#[test]
fn cdf_definedness() {
    let x = d(1.0);
    assert!(try_create(0.1, 0.1).cdf_is_defined(&x));
    assert!(try_create(10.0, 1.0).cdf_is_defined(&x));
    assert!(!try_create(f64::INFINITY, 0.1).cdf_is_defined(&x));
    assert!(!try_create(0.1, f64::INFINITY).cdf_is_defined(&x));
    assert!(!try_create(0.1, 0.1).cdf_is_defined(&d(f64::INFINITY)));
    assert!(!try_create(0.1, 0.1).cdf_is_defined(&d(f64::NEG_INFINITY)));
}

#[test]
fn gamma_validation() {
    assert!(Gamma::new(d(1.0), d(0.5)).is_ok());
    assert!(Gamma::new(d(f64::INFINITY), d(0.5)).is_ok());
    assert!(Gamma::new(d(0.0), d(0.5)).is_err());
    assert!(Gamma::new(d(1.0), d(0.0)).is_err());
    assert!(Gamma::new(d(f64::NAN), d(0.5)).is_err());
    assert!(Gamma::new(d(1.0), d(f64::NAN)).is_err());
    assert!(Gamma::new(d(-3.0), d(0.5)).is_err());
}

#[test]
fn gamma_sampler_regime() {
    // shapes below one are sampled through the boosting transform
    assert!(Gamma::new(d(0.5), d(0.5)).unwrap().uses_boost());
    assert!(!Gamma::new(d(1.0), d(0.5)).unwrap().uses_boost());
    assert!(!Gamma::new(d(7.5), d(1.0)).unwrap().uses_boost());
    assert!(statrs::gamma::shape_uses_boost(&d(0.5)));
    assert!(!statrs::gamma::shape_uses_boost(&d(1.0)));
    assert!(!statrs::gamma::shape_uses_boost(&d(f64::NAN)));
}

#[test]
fn gamma_density_at_the_zero_boundary() {
    // the rate at shape one (the exponential case), zero otherwise
    let exponential = Gamma::new(d(1.0), d(2.0)).unwrap();
    assert_eq!(exponential.pdf_at_zero().to_bits(), 2.0f64.to_bits());
    let other = Gamma::new(d(3.0), d(2.0)).unwrap();
    assert_eq!(other.pdf_at_zero().to_bits(), 0.0f64.to_bits());
}
