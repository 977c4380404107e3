use rustyfin::binary64::Binary64;
use rustyfin::optimization::root_find::{ConvergenceType, SecantError, SecantOk};
use rustyfin::options::black_scholes::{intrinsic_value, pricing_regime, PricingRegime, HALF_BITS};
use rustyfin::options::volatility::{
    quoted_price, solved_volatility, SolverConfig, DEFAULT_MAX_ITER, DEFAULT_TOLERANCE_BITS,
    DEFAULT_X0_BITS, DEFAULT_X1_BITS,
};

fn pack(x: f64) -> Binary64 {
    Binary64::from_bits(x.to_bits())
}

fn unpack(x: Binary64) -> f64 {
    f64::from_bits(x.to_bits())
}

#[test]
fn regime_is_intrinsic_without_time_or_volatility() {
    assert_eq!(pricing_regime(pack(0.0), pack(0.2)), PricingRegime::Intrinsic);
    assert_eq!(pricing_regime(pack(1.0), pack(0.0)), PricingRegime::Intrinsic);
    assert_eq!(pricing_regime(pack(-0.0), pack(0.2)), PricingRegime::Intrinsic);
    assert_eq!(pricing_regime(pack(1.0), pack(-0.0)), PricingRegime::Intrinsic);
    assert_eq!(pricing_regime(pack(-1.0), pack(0.2)), PricingRegime::Intrinsic);
    assert_eq!(pricing_regime(pack(1.0), pack(-0.2)), PricingRegime::Intrinsic);
    assert_eq!(pricing_regime(pack(0.0), pack(0.0)), PricingRegime::Intrinsic);
    assert_eq!(pricing_regime(pack(f64::NEG_INFINITY), pack(1.0)), PricingRegime::Intrinsic);
    assert_eq!(pricing_regime(pack(0.0), pack(f64::NAN)), PricingRegime::Intrinsic);
}

#[test]
fn regime_is_closed_form_with_time_and_volatility() {
    assert_eq!(pricing_regime(pack(1.0), pack(0.2)), PricingRegime::ClosedForm);
    assert_eq!(pricing_regime(pack(5e-324), pack(5e-324)), PricingRegime::ClosedForm);
    assert_eq!(pricing_regime(pack(f64::INFINITY), pack(f64::MAX)), PricingRegime::ClosedForm);
    // A NaN is not at or below zero.
    assert_eq!(pricing_regime(pack(f64::NAN), pack(0.2)), PricingRegime::ClosedForm);
    assert_eq!(pricing_regime(pack(1.0), pack(f64::NAN)), PricingRegime::ClosedForm);
}

#[test]
fn intrinsic_value_is_the_positive_part() {
    assert_eq!(unpack(intrinsic_value(pack(20.0))), 20.0);
    assert_eq!(intrinsic_value(pack(-20.0)).to_bits(), 0);
    assert_eq!(intrinsic_value(pack(0.0)).to_bits(), 0);
    assert_eq!(intrinsic_value(pack(-0.0)).to_bits(), 0);
    assert_eq!(intrinsic_value(pack(f64::NAN)).to_bits(), 0);
    assert_eq!(intrinsic_value(pack(f64::NEG_INFINITY)).to_bits(), 0);
    assert_eq!(unpack(intrinsic_value(pack(f64::INFINITY))), f64::INFINITY);
    assert_eq!(unpack(intrinsic_value(pack(5e-324))), 5e-324);
}

#[test]
fn half_is_one_half() {
    assert_eq!(HALF_BITS, 0.5f64.to_bits());
}

#[test]
fn default_config_has_the_documented_values() {
    let config = SolverConfig::default();
    assert_eq!(unpack(config.x0), 0.1);
    assert_eq!(unpack(config.x1), 0.3);
    assert_eq!(unpack(config.xtol), 1e-6);
    assert_eq!(unpack(config.ftol), 1e-6);
    assert_eq!(config.max_iter, 50);
    assert_eq!(DEFAULT_X0_BITS, 0.1f64.to_bits());
    assert_eq!(DEFAULT_X1_BITS, 0.3f64.to_bits());
    assert_eq!(DEFAULT_TOLERANCE_BITS, 1e-6f64.to_bits());
    assert_eq!(DEFAULT_MAX_ITER, 50);
}

#[test]
fn quoted_price_follows_the_option_kind() {
    assert_eq!(unpack(quoted_price(pack(10.45), pack(5.57), true)), 10.45);
    assert_eq!(unpack(quoted_price(pack(10.45), pack(5.57), false)), 5.57);
}

#[test]
fn solved_volatility_is_the_root_or_the_same_error() {
    let found = SecantOk {
        root: pack(0.2),
        iterations: 4,
        convergence_type: ConvergenceType::XTolerance,
    };
    assert_eq!(unpack(solved_volatility(Ok(found)).unwrap()), 0.2);
    assert!(matches!(
        solved_volatility(Err(SecantError::MaxIterationsExceeded)),
        Err(SecantError::MaxIterationsExceeded)
    ));
    assert!(matches!(
        solved_volatility(Err(SecantError::DivisionByZero)),
        Err(SecantError::DivisionByZero)
    ));
}
