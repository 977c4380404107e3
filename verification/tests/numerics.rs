use approx::RelativeEq;
use rustyfin::binary64::Binary64;
use rustyfin::numerics::Numerics;
use rustyfin::optimization::root_find::{ConvergenceType, SecantError, SecantOk};
use rustyfin::options::volatility::SolverConfig;
use statrs::distribution::{ContinuousCDF, Normal};

fn pack(x: f64) -> Binary64 {
    Binary64::from_bits(x.to_bits())
}

fn unpack(x: Binary64) -> f64 {
    f64::from_bits(x.to_bits())
}

/// The operations of the hardware, with the normal distribution of `statrs`.
fn hardware() -> Numerics<
    impl Fn(Binary64, Binary64) -> Binary64,
    impl Fn(Binary64, Binary64) -> Binary64,
    impl Fn(Binary64, Binary64) -> Binary64,
    impl Fn(Binary64, Binary64) -> Binary64,
    impl Fn(Binary64) -> Binary64,
    impl Fn(Binary64) -> Binary64,
    impl Fn(Binary64) -> Binary64,
    impl Fn(Binary64) -> Binary64,
> {
    Numerics {
        sum: |a: Binary64, b: Binary64| pack(unpack(a) + unpack(b)),
        difference: |a: Binary64, b: Binary64| pack(unpack(a) - unpack(b)),
        product: |a: Binary64, b: Binary64| pack(unpack(a) * unpack(b)),
        quotient: |a: Binary64, b: Binary64| pack(unpack(a) / unpack(b)),
        square_root: |a: Binary64| pack(unpack(a).sqrt()),
        logarithm: |a: Binary64| pack(unpack(a).ln()),
        exponential: |a: Binary64| pack(unpack(a).exp()),
        normal_cdf: |a: Binary64| pack(Normal::new(0.0, 1.0).unwrap().cdf(unpack(a))),
    }
}

/// Numerics that subtract and do nothing else.
fn subtraction_only() -> Numerics<
    impl Fn(Binary64, Binary64) -> Binary64,
    impl Fn(Binary64, Binary64) -> Binary64,
    impl Fn(Binary64, Binary64) -> Binary64,
    impl Fn(Binary64, Binary64) -> Binary64,
    impl Fn(Binary64) -> Binary64,
    impl Fn(Binary64) -> Binary64,
    impl Fn(Binary64) -> Binary64,
    impl Fn(Binary64) -> Binary64,
> {
    Numerics {
        sum: |_: Binary64, _: Binary64| -> Binary64 { panic!("a sum was computed") },
        difference: |a: Binary64, b: Binary64| pack(unpack(a) - unpack(b)),
        product: |_: Binary64, _: Binary64| -> Binary64 { panic!("a product was computed") },
        quotient: |_: Binary64, _: Binary64| -> Binary64 { panic!("a quotient was computed") },
        square_root: |_: Binary64| -> Binary64 { panic!("a square root was computed") },
        logarithm: |_: Binary64| -> Binary64 { panic!("a logarithm was computed") },
        exponential: |_: Binary64| -> Binary64 { panic!("an exponential was computed") },
        normal_cdf: |_: Binary64| -> Binary64 { panic!("the distribution was computed") },
    }
}

/// The closed form, written out on doubles.
fn closed_form(s: f64, k: f64, t: f64, r: f64, sigma: f64) -> (f64, f64) {
    let sigma_sqrt_t = sigma * t.sqrt();
    let d1 = ((s / k).ln() + (r + 0.5 * sigma * sigma) * t) / sigma_sqrt_t;
    let d2 = d1 - sigma * t.sqrt();
    let stdn = Normal::new(0.0, 1.0).unwrap();
    let df = (-r * t).exp();
    let call = s * stdn.cdf(d1) - k * df * stdn.cdf(d2);
    let put = k * df * stdn.cdf(-d2) - s * stdn.cdf(-d1);
    (call, put)
}

fn secant(
    f: impl Fn(f64) -> f64,
    x0: f64,
    x1: f64,
    xtol: f64,
    ftol: f64,
    max_iter: usize,
) -> Result<SecantOk, SecantError> {
    rustyfin::optimization::root_find::secant(
        |x: Binary64| pack(f(unpack(x))),
        &hardware(),
        pack(x0),
        pack(x1),
        pack(xtol),
        pack(ftol),
        max_iter,
    )
}

fn black_scholes(s: f64, k: f64, t: f64, r: f64, sigma: f64) -> (f64, f64) {
    let (call, put) = rustyfin::options::black_scholes::black_scholes(
        &hardware(),
        pack(s),
        pack(k),
        pack(t),
        pack(r),
        pack(sigma),
    );
    (unpack(call), unpack(put))
}

fn implied_volatility(
    p: f64,
    s: f64,
    k: f64,
    t: f64,
    r: f64,
    is_call: bool,
) -> Result<f64, SecantError> {
    rustyfin::options::volatility::implied_volatility(
        &hardware(),
        pack(p),
        pack(s),
        pack(k),
        pack(t),
        pack(r),
        is_call,
    )
    .map(unpack)
}

fn implied_volatility_with(
    config: &SolverConfig,
    p: f64,
    s: f64,
    k: f64,
    t: f64,
    r: f64,
    is_call: bool,
) -> Result<f64, SecantError> {
    rustyfin::options::volatility::implied_volatility_with(
        config,
        &hardware(),
        pack(p),
        pack(s),
        pack(k),
        pack(t),
        pack(r),
        is_call,
    )
    .map(unpack)
}

#[test]
fn test_secant_simple_root() {
    // Root at x=2 for f(x)=x^2-4
    let f = |x: f64| x * x - 4.0;
    let res = secant(f, 1.0, 3.0, 1e-12, 1e-12, 50).expect("Expected convergence on trivial example.");
    assert!((unpack(res.root) - 2.0).abs() < 1e-9, "root = {}", unpack(res.root));
}

#[test]
fn test_basic_pricing() {
    // Classic example: S=100, K=100, T=1, r=0.05, sigma=0.2
    let (call, put) = black_scholes(100.0, 100.0, 1.0, 0.05, 0.2);
    // Reference values ~10.4506 (call), ~5.5735 (put)
    assert!((call - 10.45).abs() < 0.02, "call={} not close", call);
    assert!((put - 5.57).abs() < 0.02, "put={} not close", put);
}

#[test]
fn test_intrinsic_edge() {
    let (call, put) = black_scholes(120.0, 100.0, 0.0, 0.05, 0.2);
    assert_eq!(call, 20.0);
    assert_eq!(put, 0.0);
}

#[test]
fn test_implied_volatility_call() {
    // Given market price, recover volatility
    let s = 100.0;
    let k = 100.0;
    let t = 1.0;
    let r = 0.05;
    let sigma = 0.2;
    let (call_price, _) = black_scholes(s, k, t, r, sigma);
    let implied_vol = implied_volatility(call_price, s, k, t, r, true)
        .expect("Implied volatility calculation failed");
    assert!(implied_vol.relative_eq(&sigma, 1e-4, f64::default_max_relative()));
}

#[test]
fn test_implied_volatility_put() {
    // Given market price, recover volatility
    let s = 100.0;
    let k = 100.0;
    let t = 1.0;
    let r = 0.05;
    let sigma = 0.2;
    let (_, put_price) = black_scholes(s, k, t, r, sigma);
    let implied_vol = implied_volatility(put_price, s, k, t, r, false)
        .expect("Implied volatility calculation failed");
    assert!(implied_vol.relative_eq(&sigma, 1e-4, f64::default_max_relative()));
}

#[test]
fn secant_reports_how_it_converged() {
    let f = |x: f64| x * x - 4.0;
    // A loose residual tolerance is met first.
    let res = secant(f, 1.0, 3.0, 0.0, 1e-3, 50).unwrap();
    assert_eq!(res.convergence_type, ConvergenceType::FTolerance);
    assert!((unpack(res.root) - 2.0).abs() < 1e-3);
    assert!(res.iterations > 0 && res.iterations < 50);
    // With no residual tolerance the step tolerance ends the run.
    let res = secant(f, 1.0, 3.0, 1e-3, 0.0, 50).unwrap();
    assert_eq!(res.convergence_type, ConvergenceType::XTolerance);
    assert!((unpack(res.root) - 2.0).abs() < 1e-3);
}

#[test]
fn secant_first_update_is_exact() {
    // f(1) = -3, f(3) = 5: x2 = 3 - 5 * 2 / 8 = 1.75, a step of 1.25.
    let f = |x: f64| x * x - 4.0;
    let res = secant(f, 1.0, 3.0, 1.25, 0.0, 50).unwrap();
    assert_eq!(unpack(res.root), 1.75);
    assert_eq!(res.iterations, 0);
    assert_eq!(res.convergence_type, ConvergenceType::XTolerance);
}

#[test]
fn secant_root_at_start_takes_no_iteration() {
    let f = |x: f64| x - 3.0;
    let res = secant(f, 1.0, 3.0, 1e-12, 1e-12, 50).unwrap();
    assert_eq!(unpack(res.root), 3.0);
    assert_eq!(res.iterations, 0);
    assert_eq!(res.convergence_type, ConvergenceType::FTolerance);
}

#[test]
fn secant_flat_residual_is_division_by_zero() {
    let f = |_: f64| 1.0;
    let res = secant(f, 1.0, 3.0, 1e-12, 1e-12, 50);
    assert!(matches!(res, Err(SecantError::DivisionByZero)));
    // The gap is exactly zero and so is the tolerance: still stagnation.
    let res = secant(f, 1.0, 3.0, 0.0, 0.0, 50);
    assert!(matches!(res, Err(SecantError::DivisionByZero)));
}

#[test]
fn secant_without_root_exceeds_max_iterations() {
    let f = |x: f64| x * x + 1.0;
    let res = secant(f, 1.0, 3.0, 1e-12, 1e-12, 7);
    assert!(matches!(res, Err(SecantError::MaxIterationsExceeded)));
    let res = secant(|x: f64| x * x - 4.0, 1.0, 3.0, 1e-12, 1e-12, 2);
    assert!(matches!(res, Err(SecantError::MaxIterationsExceeded)));
}

#[test]
fn put_call_parity_holds() {
    let cases = [
        (100.0, 100.0, 1.0, 0.05, 0.2),
        (120.0, 100.0, 0.5, 0.01, 0.35),
        (80.0, 100.0, 2.0, -0.01, 0.6),
        (100.0, 150.0, 0.25, 0.1, 0.05),
    ];
    for (s, k, t, r, sigma) in cases {
        let (call, put) = black_scholes(s, k, t, r, sigma);
        let forward: f64 = s - k * (-r * t).exp();
        assert!(((call - put) - forward).abs() <= 1e-9 * forward.abs().max(1.0));
        assert!(call >= 0.0 && put >= 0.0);
    }
}

#[test]
fn implied_volatility_round_trips() {
    for sigma in [0.05, 0.1, 0.2, 0.35, 0.5, 0.75, 1.0] {
        let (call, put) = black_scholes(100.0, 100.0, 1.0, 0.05, sigma);
        let from_call = implied_volatility(call, 100.0, 100.0, 1.0, 0.05, true).unwrap();
        let from_put = implied_volatility(put, 100.0, 100.0, 1.0, 0.05, false).unwrap();
        assert!((from_call - sigma).abs() < 1e-4, "call: {} for {}", from_call, sigma);
        assert!((from_put - sigma).abs() < 1e-4, "put: {} for {}", from_put, sigma);
    }
}

#[test]
fn implied_volatility_surfaces_stagnation() {
    // At maturity the price does not depend on the volatility: the residual is flat.
    let res = implied_volatility(5.0, 120.0, 100.0, 0.0, 0.05, true);
    assert!(matches!(res, Err(SecantError::DivisionByZero)));
}

#[test]
fn degenerate_inputs_give_intrinsic_value_at_any_rate() {
    for r in [-0.5, 0.0, 0.05, 3.0, f64::INFINITY] {
        assert_eq!(black_scholes(120.0, 100.0, 0.0, r, 0.2), (20.0, 0.0));
        assert_eq!(black_scholes(120.0, 100.0, 1.0, r, 0.0), (20.0, 0.0));
        assert_eq!(black_scholes(80.0, 100.0, 0.0, r, 0.2), (0.0, 20.0));
        assert_eq!(black_scholes(80.0, 100.0, 1.0, r, 0.0), (0.0, 20.0));
        assert_eq!(black_scholes(100.0, 100.0, -1.0, r, -0.2), (0.0, 0.0));
    }
}

#[test]
fn closed_form_gives_the_textbook_prices() {
    let (call, put) = black_scholes(100.0, 100.0, 1.0, 0.05, 0.2);
    assert!((call - 10.450583572185565).abs() < 1e-9, "call = {}", call);
    assert!((put - 5.573526022256971).abs() < 1e-9, "put = {}", put);
}

#[test]
fn closed_form_agrees_with_the_formula_on_doubles() {
    let cases = [
        (100.0, 100.0, 1.0, 0.05, 0.2),
        (120.0, 100.0, 0.5, 0.01, 0.35),
        (80.0, 100.0, 2.0, -0.01, 0.6),
        (100.0, 150.0, 0.25, 0.1, 0.05),
        (1.0, 3.0, 10.0, 0.0, 1.5),
    ];
    for (s, k, t, r, sigma) in cases {
        let (call, put) = black_scholes(s, k, t, r, sigma);
        let (expected_call, expected_put) = closed_form(s, k, t, r, sigma);
        assert_eq!(call.to_bits(), expected_call.to_bits());
        assert_eq!(put.to_bits(), expected_put.to_bits());
    }
}

#[test]
fn closed_form_is_not_computed_on_degenerate_inputs() {
    let (call, put) = rustyfin::options::black_scholes::black_scholes(
        &subtraction_only(),
        pack(120.0),
        pack(100.0),
        pack(0.0),
        pack(0.05),
        pack(0.2),
    );
    assert_eq!(unpack(call), 20.0);
    assert_eq!(unpack(put), 0.0);
    let (call, put) = rustyfin::options::black_scholes::black_scholes(
        &subtraction_only(),
        pack(90.0),
        pack(100.0),
        pack(1.0),
        pack(0.05),
        pack(-0.0),
    );
    assert_eq!(unpack(call), 0.0);
    assert_eq!(unpack(put), 10.0);
}

#[test]
fn nan_time_or_volatility_goes_through_the_closed_form() {
    let (call, put) = black_scholes(100.0, 100.0, f64::NAN, 0.05, 0.2);
    assert!(call.is_nan() && put.is_nan());
    let (call, put) = black_scholes(100.0, 100.0, 1.0, 0.05, f64::NAN);
    assert!(call.is_nan() && put.is_nan());
}

#[test]
fn implied_volatility_reads_the_price_of_the_right_option() {
    let (call, put) = black_scholes(100.0, 100.0, 1.0, 0.05, 0.2);
    assert!(call > put);
    // The call's price, read as a put's, is a higher volatility.
    let as_put = implied_volatility(call, 100.0, 100.0, 1.0, 0.05, false).unwrap();
    assert!(as_put > 0.3, "{}", as_put);
    let (_, check) = black_scholes(100.0, 100.0, 1.0, 0.05, as_put);
    assert!((check - call).abs() < 1e-5);
    // The put's price, read as a call's, is a lower one.
    let as_call = implied_volatility(put, 100.0, 100.0, 1.0, 0.05, true).unwrap();
    assert!(as_call < 0.1, "{}", as_call);
}

#[test]
fn implied_volatility_follows_the_configuration() {
    let (call, _) = black_scholes(100.0, 100.0, 1.0, 0.05, 0.2);
    let by_default = implied_volatility(call, 100.0, 100.0, 1.0, 0.05, true).unwrap();
    let same = implied_volatility_with(&SolverConfig::default(), call, 100.0, 100.0, 1.0, 0.05, true)
        .unwrap();
    assert_eq!(by_default.to_bits(), same.to_bits());
    // Other initial estimates lead to the same volatility.
    let config = SolverConfig {
        x0: pack(0.5),
        x1: pack(0.6),
        xtol: pack(1e-10),
        ftol: pack(1e-10),
        max_iter: 50,
    };
    let found = implied_volatility_with(&config, call, 100.0, 100.0, 1.0, 0.05, true).unwrap();
    assert!((found - 0.2).abs() < 1e-8);
    // One iteration is not enough.
    let config = SolverConfig {
        x0: pack(0.1),
        x1: pack(0.3),
        xtol: pack(0.0),
        ftol: pack(0.0),
        max_iter: 1,
    };
    let res = implied_volatility_with(&config, call, 100.0, 100.0, 1.0, 0.05, true);
    assert!(matches!(res, Err(SecantError::MaxIterationsExceeded)));
    // An estimate that already prices the option is returned at once.
    let config = SolverConfig {
        x0: pack(0.1),
        x1: pack(0.2),
        xtol: pack(1e-6),
        ftol: pack(1e-6),
        max_iter: 50,
    };
    let found = implied_volatility_with(&config, call, 100.0, 100.0, 1.0, 0.05, true).unwrap();
    assert_eq!(found, 0.2);
}
