//! Implied volatility: the volatility at which the Black-Scholes price of an
//! option equals an observed price, found by the secant method on the
//! residual `price(sigma) - observed`.

use crate::binary64::{approximates, lemma_approximates, Binary64};
use crate::numerics::{Functions, Numerics};
use crate::optimization::root_find::{
    evaluates, iteration_of, lemma_success_meets_tolerance, outputs, secant, secant_outcome,
    within, Iteration, SecantError, SecantOk, SecantSolver, SecantStage,
};
use crate::options::black_scholes::{black_scholes, prices_of};
use vstd::arithmetic::power2::*;
use vstd::prelude::*;

verus! {

/// The binary64 nearest to one tenth.
pub const DEFAULT_X0_BITS: u64 = 0x3FB9_9999_9999_999A;

/// The binary64 nearest to three tenths.
pub const DEFAULT_X1_BITS: u64 = 0x3FD3_3333_3333_3333;

/// The binary64 nearest to one millionth.
pub const DEFAULT_TOLERANCE_BITS: u64 = 0x3EB0_C6F7_A0B5_ED8D;

/// The default iteration cap.
pub const DEFAULT_MAX_ITER: usize = 50;

/// What the secant method is started with.
#[derive(Debug, Clone, Copy)]
pub struct SolverConfig {
    /// First initial estimate of the volatility.
    pub x0: Binary64,
    /// Second initial estimate of the volatility.
    pub x1: Binary64,
    /// Absolute tolerance on the step between estimates.
    pub xtol: Binary64,
    /// Absolute tolerance on the price residual.
    pub ftol: Binary64,
    /// Maximum number of iterations.
    pub max_iter: usize,
}

impl Default for SolverConfig {
    /// Estimates of one tenth and three tenths, both tolerances one
    /// millionth, at most 50 iterations.
    fn default() -> (r: SolverConfig)
        ensures
            r == SolverConfig::defaults(),
    {
        SolverConfig {
            x0: Binary64::from_bits(DEFAULT_X0_BITS),
            x1: Binary64::from_bits(DEFAULT_X1_BITS),
            xtol: Binary64::from_bits(DEFAULT_TOLERANCE_BITS),
            ftol: Binary64::from_bits(DEFAULT_TOLERANCE_BITS),
            max_iter: DEFAULT_MAX_ITER,
        }
    }
}

impl SolverConfig {
    /// The default configuration.
    pub open spec fn defaults() -> SolverConfig {
        SolverConfig {
            x0: Binary64 { bits: DEFAULT_X0_BITS },
            x1: Binary64 { bits: DEFAULT_X1_BITS },
            xtol: Binary64 { bits: DEFAULT_TOLERANCE_BITS },
            ftol: Binary64 { bits: DEFAULT_TOLERANCE_BITS },
            max_iter: DEFAULT_MAX_ITER,
        }
    }

    /// The run that this configuration starts.
    pub open spec fn start(self) -> SecantSolver {
        SecantSolver::start(self.x0, self.x1, self.xtol, self.ftol, self.max_iter)
    }
}

/// The price of the option in question: the call price for a call, the put
/// price for a put.
pub open spec fn quoted(prices: (Binary64, Binary64), is_call: bool) -> Binary64 {
    if is_call {
        prices.0
    } else {
        prices.1
    }
}

/// The root on success, and on failure the solver's error, unchanged.
pub open spec fn solved(outcome: Result<SecantOk, SecantError>) -> Result<Binary64, SecantError> {
    match outcome {
        Ok(found) => Ok(found.root),
        Err(error) => Err(error),
    }
}

/// The price that the residual is taken from: the call price for a call, the
/// put price for a put. The other price is not read.
pub fn quoted_price(call: Binary64, put: Binary64, is_call: bool) -> (r: Binary64)
    ensures
        r == quoted((call, put), is_call),
{
    if is_call {
        call
    } else {
        put
    }
}

/// The implied volatility from the outcome of the run: the root on success,
/// and on failure the solver's error, unchanged. The root is passed on as it
/// was found, whether or not it is a sensible volatility.
pub fn solved_volatility(outcome: Result<SecantOk, SecantError>) -> (r: Result<
    Binary64,
    SecantError,
>)
    ensures
        r == solved(outcome),
{
    match outcome {
        Ok(found) => Ok(found.root),
        Err(error) => Err(error),
    }
}

/// The residual `price(sigma) - p` as a function of `sigma`, with the
/// operations given as functions.
pub open spec fn residual_of(
    functions: Functions,
    p: Binary64,
    s: Binary64,
    k: Binary64,
    t: Binary64,
    r: Binary64,
    is_call: bool,
) -> spec_fn(Binary64) -> Binary64 {
    |sigma: Binary64|
        (functions.difference)(quoted(prices_of(functions, s, k, t, r, sigma), is_call), p)
}

/// The implied volatility, with the operations given as functions: the root
/// that the secant recursion finds for the residual `price(sigma) - p`, or
/// its error.
pub open spec fn implied(
    config: SolverConfig,
    functions: Functions,
    p: Binary64,
    s: Binary64,
    k: Binary64,
    t: Binary64,
    r: Binary64,
    is_call: bool,
) -> Result<Binary64, SecantError> {
    solved(
        secant_outcome(
            residual_of(functions, p, s, k, t, r, is_call),
            functions,
            config.x0,
            config.x1,
            config.xtol,
            config.ftol,
            config.max_iter,
            0,
        ),
    )
}

impl<Add, Sub, Mul, Div, Sqrt, Ln, Exp, Cdf> Numerics<Add, Sub, Mul, Div, Sqrt, Ln, Exp, Cdf> where
    Add: Fn(Binary64, Binary64) -> Binary64,
    Sub: Fn(Binary64, Binary64) -> Binary64,
    Mul: Fn(Binary64, Binary64) -> Binary64,
    Div: Fn(Binary64, Binary64) -> Binary64,
    Sqrt: Fn(Binary64) -> Binary64,
    Ln: Fn(Binary64) -> Binary64,
    Exp: Fn(Binary64) -> Binary64,
    Cdf: Fn(Binary64) -> Binary64,
 {
    /// What the residual `price(sigma) - p` may come out as: `misprices(..)(sigma,
    /// y)` says that these numerics may price the option in question at the
    /// volatility `sigma` and take `p` from the price with the result `y`.
    pub open spec fn misprices(
        self,
        p: Binary64,
        s: Binary64,
        k: Binary64,
        t: Binary64,
        r: Binary64,
        is_call: bool,
    ) -> spec_fn(Binary64, Binary64) -> bool {
        |sigma: Binary64, y: Binary64|
            exists|found: (Binary64, Binary64)|
                {
                    &&& #[trigger] self.prices(s, k, t, r, sigma, found)
                    &&& self.subtracts(quoted(found, is_call), p, y)
                }
    }

    /// Whether `found` may be the implied volatility that these numerics
    /// compute: there are iterations of the secant method, started as `config`
    /// says and computed on the residual `price(sigma) - p`, that end the run,
    /// and `found` is its root or its error.
    pub open spec fn solves(
        self,
        config: SolverConfig,
        p: Binary64,
        s: Binary64,
        k: Binary64,
        t: Binary64,
        r: Binary64,
        is_call: bool,
        found: Result<Binary64, SecantError>,
    ) -> bool {
        exists|seen: Seq<Iteration>|
            {
                &&& self.runs(self.misprices(p, s, k, t, r, is_call), config.start(), seen)
                &&& #[trigger] config.start().after_iterations(seen).stage
                    matches SecantStage::Finished(outcome) && found == solved(outcome)
            }
    }
}

/// Calculates implied volatility by solving for the market price `p`, with
/// the default configuration: the volatility at which the price of the call
/// (`is_call`) or put on spot `s`, strike `k`, time to maturity `t` and rate
/// `r` is `p`.
pub fn implied_volatility<Add, Sub, Mul, Div, Sqrt, Ln, Exp, Cdf>(
    numerics: &Numerics<Add, Sub, Mul, Div, Sqrt, Ln, Exp, Cdf>,
    p: Binary64,
    s: Binary64,
    k: Binary64,
    t: Binary64,
    r: Binary64,
    is_call: bool,
) -> (found: Result<Binary64, SecantError>) where
    Add: Fn(Binary64, Binary64) -> Binary64,
    Sub: Fn(Binary64, Binary64) -> Binary64,
    Mul: Fn(Binary64, Binary64) -> Binary64,
    Div: Fn(Binary64, Binary64) -> Binary64,
    Sqrt: Fn(Binary64) -> Binary64,
    Ln: Fn(Binary64) -> Binary64,
    Exp: Fn(Binary64) -> Binary64,
    Cdf: Fn(Binary64) -> Binary64,

    requires
        numerics.total(),
    ensures
        numerics.solves(SolverConfig::defaults(), p, s, k, t, r, is_call, found),
        forall|functions: Functions| #[trigger]
            numerics.computes(functions) ==> found == implied(
                SolverConfig::defaults(),
                functions,
                p,
                s,
                k,
                t,
                r,
                is_call,
            ),
{
    let config = SolverConfig::default();
    implied_volatility_with(&config, numerics, p, s, k, t, r, is_call)
}

/// The same, with the initial estimates, the tolerances and the iteration cap
/// of `config`.
pub fn implied_volatility_with<Add, Sub, Mul, Div, Sqrt, Ln, Exp, Cdf>(
    config: &SolverConfig,
    numerics: &Numerics<Add, Sub, Mul, Div, Sqrt, Ln, Exp, Cdf>,
    p: Binary64,
    s: Binary64,
    k: Binary64,
    t: Binary64,
    r: Binary64,
    is_call: bool,
) -> (found: Result<Binary64, SecantError>) where
    Add: Fn(Binary64, Binary64) -> Binary64,
    Sub: Fn(Binary64, Binary64) -> Binary64,
    Mul: Fn(Binary64, Binary64) -> Binary64,
    Div: Fn(Binary64, Binary64) -> Binary64,
    Sqrt: Fn(Binary64) -> Binary64,
    Ln: Fn(Binary64) -> Binary64,
    Exp: Fn(Binary64) -> Binary64,
    Cdf: Fn(Binary64) -> Binary64,

    requires
        numerics.total(),
    ensures
        numerics.solves(*config, p, s, k, t, r, is_call, found),
        forall|functions: Functions| #[trigger]
            numerics.computes(functions) ==> found == implied(
                *config,
                functions,
                p,
                s,
                k,
                t,
                r,
                is_call,
            ),
{
    let ghost yields = numerics.misprices(p, s, k, t, r, is_call);
    let f = |sigma: Binary64| -> (y: Binary64)
        ensures
            yields(sigma, y),
        {
            let (call_price, put_price) = black_scholes(numerics, s, k, t, r, sigma);
            (numerics.difference)(quoted_price(call_price, put_price, is_call), p)
        };
    let outcome = secant(
        f,
        numerics,
        config.x0,
        config.x1,
        config.xtol,
        config.ftol,
        config.max_iter,
    );
    proof {
        let seen = choose|seen: Seq<Iteration>|
            {
                &&& numerics.runs(outputs(f), config.start(), seen)
                &&& #[trigger] config.start().after_iterations(seen).stage
                    == SecantStage::Finished(outcome)
            };
        numerics.lemma_runs_weakens(outputs(f), yields, config.start(), seen);
        assert forall|functions: Functions| #[trigger]
            numerics.computes(functions) implies evaluates(
            f,
            residual_of(functions, p, s, k, t, r, is_call),
        ) by {
            assert forall|sigma: Binary64, y: Binary64| #[trigger]
                f.ensures((sigma,), y) implies y == residual_of(functions, p, s, k, t, r, is_call)(
                sigma,
            ) by {
                assert(yields(sigma, y));
            }
        }
    }
    solved_volatility(outcome)
}

/// An implied volatility prices the option back: the price at the volatility
/// found, less `p`, is within the residual tolerance, unless the volatility
/// is a secant update that stopped within the step tolerance of the estimate
/// before it.
pub proof fn lemma_implied_volatility_reprices(
    config: SolverConfig,
    functions: Functions,
    p: Binary64,
    s: Binary64,
    k: Binary64,
    t: Binary64,
    r: Binary64,
    is_call: bool,
)
    ensures
        implied(config, functions, p, s, k, t, r, is_call) matches Ok(sigma) ==> {
            ||| within(
                (functions.difference)(
                    quoted(prices_of(functions, s, k, t, r, sigma), is_call),
                    p,
                ),
                config.ftol,
            )
            ||| exists|a: Binary64, b: Binary64|
                sigma == (#[trigger] iteration_of(
                    residual_of(functions, p, s, k, t, r, is_call),
                    functions,
                    a,
                    b,
                )).candidate && within((functions.difference)(sigma, b), config.xtol)
        },
{
    lemma_success_meets_tolerance(
        residual_of(functions, p, s, k, t, r, is_call),
        functions,
        config.x0,
        config.x1,
        config.xtol,
        config.ftol,
        config.max_iter,
        0,
    );
}

/// The default estimates are the binary64 approximations of 1/10 and 3/10,
/// and the default tolerance is that of 1/1000000.
pub proof fn lemma_defaults_are_decimal()
    ensures
        approximates(Binary64 { bits: DEFAULT_X0_BITS }, 1, 10),
        approximates(Binary64 { bits: DEFAULT_X1_BITS }, 3, 10),
        approximates(Binary64 { bits: DEFAULT_TOLERANCE_BITS }, 1, 1_000_000),
{
    lemma2_to64();
    lemma2_to64_rest();
    lemma_pow2_adds(64, 8);
    lemma_approximates(Binary64 { bits: DEFAULT_X0_BITS }, 1, 10, 1019, 0x19_9999_9999_999A);
    lemma_approximates(Binary64 { bits: DEFAULT_X1_BITS }, 3, 10, 1021, 0x13_3333_3333_3333);
    lemma_approximates(
        Binary64 { bits: DEFAULT_TOLERANCE_BITS },
        1,
        1_000_000,
        1003,
        0x10_C6F7_A0B5_ED8D,
    );
}

} // verus!
