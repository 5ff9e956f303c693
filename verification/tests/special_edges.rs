//! The edge-case policy of the special-function evaluators: NaN
//! propagation, fatal out-of-domain inputs, exact boundary values, and
//! infinite-parameter collapses, as the verified classifiers decide them.

use statrs::special::beta_reg_edge;
use statrs::special::gamma_reg_edge;
use statrs::special::BetaRegEdge;
use statrs::special::GammaRegEdge;
use statrs::Double;

fn d(x: f64) -> Double {
    Double::from_bits(x.to_bits())
}

#[test]
fn gamma_edge_nan_propagates() {
    assert_eq!(gamma_reg_edge(&d(f64::NAN), &d(1.0)), GammaRegEdge::Undefined);
    assert_eq!(gamma_reg_edge(&d(1.0), &d(f64::NAN)), GammaRegEdge::Undefined);
    assert_eq!(gamma_reg_edge(&d(f64::NAN), &d(-1.0)), GammaRegEdge::Undefined);
    assert_eq!(
        gamma_reg_edge(&d(f64::INFINITY), &d(f64::INFINITY)),
        GammaRegEdge::Undefined
    );
}

#[test]
fn gamma_edge_domain_violations() {
    assert_eq!(gamma_reg_edge(&d(1.0), &d(-1.0)), GammaRegEdge::OutOfDomain);
    assert_eq!(gamma_reg_edge(&d(1.0), &d(f64::NEG_INFINITY)), GammaRegEdge::OutOfDomain);
    assert_eq!(gamma_reg_edge(&d(0.0), &d(1.0)), GammaRegEdge::OutOfDomain);
    assert_eq!(gamma_reg_edge(&d(-2.0), &d(1.0)), GammaRegEdge::OutOfDomain);
    assert_eq!(gamma_reg_edge(&d(f64::NEG_INFINITY), &d(1.0)), GammaRegEdge::OutOfDomain);
}

#[test]
fn gamma_edge_boundaries_and_limits() {
    assert_eq!(gamma_reg_edge(&d(1.0), &d(0.0)), GammaRegEdge::AtZero);
    assert_eq!(gamma_reg_edge(&d(1.0), &d(-0.0)), GammaRegEdge::AtZero);
    assert_eq!(gamma_reg_edge(&d(f64::INFINITY), &d(4.0)), GammaRegEdge::InfiniteShape);
    assert_eq!(gamma_reg_edge(&d(1.5), &d(f64::INFINITY)), GammaRegEdge::AtInfinity);
    assert_eq!(gamma_reg_edge(&d(1.5), &d(4.0)), GammaRegEdge::Interior);
}

#[test]
fn beta_edge_nan_propagates() {
    assert_eq!(beta_reg_edge(&d(f64::NAN), &d(1.0), &d(0.5)), BetaRegEdge::Undefined);
    assert_eq!(beta_reg_edge(&d(1.0), &d(f64::NAN), &d(0.5)), BetaRegEdge::Undefined);
    assert_eq!(beta_reg_edge(&d(1.0), &d(1.0), &d(f64::NAN)), BetaRegEdge::Undefined);
    // NaN wins over an out-of-range argument: the answer is NaN, not a panic
    assert_eq!(beta_reg_edge(&d(f64::NAN), &d(1.0), &d(2.0)), BetaRegEdge::Undefined);
}

#[test]
fn beta_edge_domain_violations() {
    assert_eq!(beta_reg_edge(&d(1.0), &d(1.0), &d(-0.5)), BetaRegEdge::OutOfDomain);
    assert_eq!(beta_reg_edge(&d(1.0), &d(1.0), &d(1.5)), BetaRegEdge::OutOfDomain);
    assert_eq!(beta_reg_edge(&d(1.0), &d(1.0), &d(f64::INFINITY)), BetaRegEdge::OutOfDomain);
    assert_eq!(beta_reg_edge(&d(0.0), &d(1.0), &d(0.5)), BetaRegEdge::OutOfDomain);
    assert_eq!(beta_reg_edge(&d(1.0), &d(-1.0), &d(0.5)), BetaRegEdge::OutOfDomain);
}

#[test]
fn beta_edge_boundaries_and_limits() {
    assert_eq!(beta_reg_edge(&d(2.0), &d(3.0), &d(0.0)), BetaRegEdge::AtZero);
    assert_eq!(beta_reg_edge(&d(2.0), &d(3.0), &d(-0.0)), BetaRegEdge::AtZero);
    assert_eq!(beta_reg_edge(&d(2.0), &d(3.0), &d(1.0)), BetaRegEdge::AtOne);
    assert_eq!(beta_reg_edge(&d(f64::INFINITY), &d(3.0), &d(0.5)), BetaRegEdge::Undefined);
    assert_eq!(beta_reg_edge(&d(2.0), &d(f64::INFINITY), &d(0.5)), BetaRegEdge::Undefined);
    // an infinite parameter at a clean boundary still takes the boundary
    assert_eq!(beta_reg_edge(&d(f64::INFINITY), &d(3.0), &d(0.0)), BetaRegEdge::AtZero);
    assert_eq!(beta_reg_edge(&d(f64::INFINITY), &d(3.0), &d(1.0)), BetaRegEdge::AtOne);
    assert_eq!(beta_reg_edge(&d(2.0), &d(3.0), &d(0.5)), BetaRegEdge::Interior);
}
