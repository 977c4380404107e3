//! Black-Scholes pricing of a European call and put.
//!
//! With time to maturity `T`, volatility `sigma`, spot `S`, strike `K` and
//! rate `r`, the closed form is
//!
//! ```text
//! d1   = [ln(S/K) + (r + sigma^2 / 2) * T] / (sigma * sqrt(T))
//! d2   = d1 - sigma * sqrt(T)
//! call = S * N(d1) - K * exp(-r * T) * N(d2)
//! put  = K * exp(-r * T) * N(-d2) - S * N(-d1)
//! ```
//!
//! where `N` is the standard normal distribution function. It divides by
//! `sigma * sqrt(T)`, so it is used only when both `T` and `sigma` are above
//! zero. Otherwise an option is worth its intrinsic value: `max(S - K, 0)` for
//! the call and `max(K - S, 0)` for the put.

use crate::binary64::{Binary64, Value};
use crate::numerics::{Functions, Numerics};
use vstd::arithmetic::power2::*;
use vstd::prelude::*;

verus! {

/// The binary64 number one half.
pub const HALF_BITS: u64 = 0x3FE0_0000_0000_0000;

/// The rule that gives the prices.
#[derive(Debug, Clone, Copy, PartialEq, Eq, Structural)]
pub enum PricingRegime {
    /// No time or no volatility is left: the prices are the intrinsic values.
    Intrinsic,
    /// The closed form applies.
    ClosedForm,
}

/// The numbers computed on the way through the closed form, in the order in
/// which each is made from the ones before it.
pub struct ClosedForm {
    /// `sqrt(T)`.
    pub sqrt_t: Binary64,
    /// `sigma * sqrt(T)`.
    pub sigma_sqrt_t: Binary64,
    /// `S / K`.
    pub moneyness: Binary64,
    /// `ln(S / K)`.
    pub log_moneyness: Binary64,
    /// `0.5 * sigma`.
    pub half_sigma: Binary64,
    /// `0.5 * sigma * sigma`.
    pub half_variance: Binary64,
    /// `r + 0.5 * sigma * sigma`.
    pub growth: Binary64,
    /// `(r + 0.5 * sigma * sigma) * T`.
    pub drift: Binary64,
    /// `ln(S / K) + (r + 0.5 * sigma * sigma) * T`.
    pub numerator: Binary64,
    /// The numerator over `sigma * sqrt(T)`.
    pub d1: Binary64,
    /// `d1 - sigma * sqrt(T)`.
    pub d2: Binary64,
    /// `N(d1)`.
    pub nd1: Binary64,
    /// `N(d2)`.
    pub nd2: Binary64,
    /// `N(-d1)`.
    pub nmd1: Binary64,
    /// `N(-d2)`.
    pub nmd2: Binary64,
    /// `-r * T`.
    pub discount_exponent: Binary64,
    /// The discount factor `exp(-r * T)`.
    pub discount: Binary64,
    /// `K * exp(-r * T)`.
    pub discounted_strike: Binary64,
    /// `S * N(d1)`.
    pub call_spot_leg: Binary64,
    /// `K * exp(-r * T) * N(d2)`.
    pub call_strike_leg: Binary64,
    /// The call price: its spot leg less its strike leg.
    pub call: Binary64,
    /// `K * exp(-r * T) * N(-d2)`.
    pub put_strike_leg: Binary64,
    /// `S * N(-d1)`.
    pub put_spot_leg: Binary64,
    /// The put price: its strike leg less its spot leg.
    pub put: Binary64,
}

/// Whether `time <= 0` or `sigma <= 0`. A NaN is not below zero.
pub open spec fn is_degenerate(time: Binary64, sigma: Binary64) -> bool {
    time@.le(Value::zero()) || sigma@.le(Value::zero())
}

/// `max(excess, 0)`: the excess where it is above zero, else positive zero.
/// A NaN excess gives zero.
pub open spec fn intrinsic(excess: Binary64) -> Binary64 {
    excess.larger(Binary64 { bits: 0 })
}

/// The closed form, with the operations given as functions. Both prices are
/// made from the one `d1` and the one `d2`.
pub open spec fn closed_form(
    functions: Functions,
    s: Binary64,
    k: Binary64,
    t: Binary64,
    r: Binary64,
    sigma: Binary64,
) -> ClosedForm {
    let sqrt_t = (functions.square_root)(t);
    let sigma_sqrt_t = (functions.product)(sigma, sqrt_t);
    let moneyness = (functions.quotient)(s, k);
    let log_moneyness = (functions.logarithm)(moneyness);
    let half_sigma = (functions.product)(Binary64 { bits: HALF_BITS }, sigma);
    let half_variance = (functions.product)(half_sigma, sigma);
    let growth = (functions.sum)(r, half_variance);
    let drift = (functions.product)(growth, t);
    let numerator = (functions.sum)(log_moneyness, drift);
    let d1 = (functions.quotient)(numerator, sigma_sqrt_t);
    let d2 = (functions.difference)(d1, sigma_sqrt_t);
    let nd1 = (functions.normal_cdf)(d1);
    let nd2 = (functions.normal_cdf)(d2);
    let nmd1 = (functions.normal_cdf)(d1.opposite());
    let nmd2 = (functions.normal_cdf)(d2.opposite());
    let discount_exponent = (functions.product)(r.opposite(), t);
    let discount = (functions.exponential)(discount_exponent);
    let discounted_strike = (functions.product)(k, discount);
    let call_spot_leg = (functions.product)(s, nd1);
    let call_strike_leg = (functions.product)(discounted_strike, nd2);
    let put_strike_leg = (functions.product)(discounted_strike, nmd2);
    let put_spot_leg = (functions.product)(s, nmd1);
    ClosedForm {
        sqrt_t,
        sigma_sqrt_t,
        moneyness,
        log_moneyness,
        half_sigma,
        half_variance,
        growth,
        drift,
        numerator,
        d1,
        d2,
        nd1,
        nd2,
        nmd1,
        nmd2,
        discount_exponent,
        discount,
        discounted_strike,
        call_spot_leg,
        call_strike_leg,
        call: (functions.difference)(call_spot_leg, call_strike_leg),
        put_strike_leg,
        put_spot_leg,
        put: (functions.difference)(put_strike_leg, put_spot_leg),
    }
}

/// The call and put prices, with the operations given as functions: the
/// intrinsic values where `t <= 0` or `sigma <= 0`, else the closed form.
pub open spec fn prices_of(
    functions: Functions,
    s: Binary64,
    k: Binary64,
    t: Binary64,
    r: Binary64,
    sigma: Binary64,
) -> (Binary64, Binary64) {
    if is_degenerate(t, sigma) {
        (intrinsic((functions.difference)(s, k)), intrinsic((functions.difference)(k, s)))
    } else {
        (
            closed_form(functions, s, k, t, r, sigma).call,
            closed_form(functions, s, k, t, r, sigma).put,
        )
    }
}

impl<Add, Sub, Mul, Div, Sqrt, Ln, Exp, Cdf> Numerics<Add, Sub, Mul, Div, Sqrt, Ln, Exp, Cdf> where
    Add: Fn(Binary64, Binary64) -> Binary64,
    Sub: Fn(Binary64, Binary64) -> Binary64,
    Mul: Fn(Binary64, Binary64) -> Binary64,
    Div: Fn(Binary64, Binary64) -> Binary64,
    Sqrt: Fn(Binary64) -> Binary64,
    Ln: Fn(Binary64) -> Binary64,
    Exp: Fn(Binary64) -> Binary64,
    Cdf: Fn(Binary64) -> Binary64,
 {
    /// Whether `steps` may be what these numerics compute on the way through
    /// the closed form.
    pub open spec fn works_closed_form(
        self,
        s: Binary64,
        k: Binary64,
        t: Binary64,
        r: Binary64,
        sigma: Binary64,
        steps: ClosedForm,
    ) -> bool {
        &&& self.roots(t, steps.sqrt_t)
        &&& self.multiplies(sigma, steps.sqrt_t, steps.sigma_sqrt_t)
        &&& self.divides(s, k, steps.moneyness)
        &&& self.logs(steps.moneyness, steps.log_moneyness)
        &&& self.multiplies(Binary64 { bits: HALF_BITS }, sigma, steps.half_sigma)
        &&& self.multiplies(steps.half_sigma, sigma, steps.half_variance)
        &&& self.adds(r, steps.half_variance, steps.growth)
        &&& self.multiplies(steps.growth, t, steps.drift)
        &&& self.adds(steps.log_moneyness, steps.drift, steps.numerator)
        &&& self.divides(steps.numerator, steps.sigma_sqrt_t, steps.d1)
        &&& self.subtracts(steps.d1, steps.sigma_sqrt_t, steps.d2)
        &&& self.distributes(steps.d1, steps.nd1)
        &&& self.distributes(steps.d2, steps.nd2)
        &&& self.distributes(steps.d1.opposite(), steps.nmd1)
        &&& self.distributes(steps.d2.opposite(), steps.nmd2)
        &&& self.multiplies(r.opposite(), t, steps.discount_exponent)
        &&& self.exponentiates(steps.discount_exponent, steps.discount)
        &&& self.multiplies(k, steps.discount, steps.discounted_strike)
        &&& self.multiplies(s, steps.nd1, steps.call_spot_leg)
        &&& self.multiplies(steps.discounted_strike, steps.nd2, steps.call_strike_leg)
        &&& self.subtracts(steps.call_spot_leg, steps.call_strike_leg, steps.call)
        &&& self.multiplies(steps.discounted_strike, steps.nmd2, steps.put_strike_leg)
        &&& self.multiplies(s, steps.nmd1, steps.put_spot_leg)
        &&& self.subtracts(steps.put_strike_leg, steps.put_spot_leg, steps.put)
    }

    /// Whether `found` may be the call and put prices that these numerics
    /// compute: the intrinsic values of `s - k` and `k - s` where `t <= 0` or
    /// `sigma <= 0`, else the prices of the closed form.
    pub open spec fn prices(
        self,
        s: Binary64,
        k: Binary64,
        t: Binary64,
        r: Binary64,
        sigma: Binary64,
        found: (Binary64, Binary64),
    ) -> bool {
        if is_degenerate(t, sigma) {
            exists|call_excess: Binary64, put_excess: Binary64|
                {
                    &&& #[trigger] self.subtracts(s, k, call_excess)
                    &&& #[trigger] self.subtracts(k, s, put_excess)
                    &&& found == (intrinsic(call_excess), intrinsic(put_excess))
                }
        } else {
            exists|steps: ClosedForm| #[trigger]
                self.works_closed_form(s, k, t, r, sigma, steps) && found == (
                    steps.call,
                    steps.put,
                )
        }
    }
}

/// Chooses the rule from the time to maturity and the volatility. The test
/// reads nothing else.
pub fn pricing_regime(time: Binary64, sigma: Binary64) -> (r: PricingRegime)
    ensures
        r == if is_degenerate(time, sigma) {
            PricingRegime::Intrinsic
        } else {
            PricingRegime::ClosedForm
        },
{
    if time.le(Binary64::zero()) || sigma.le(Binary64::zero()) {
        PricingRegime::Intrinsic
    } else {
        PricingRegime::ClosedForm
    }
}

/// The intrinsic value for an excess of spot over strike (for a call) or of
/// strike over spot (for a put). It is never negative.
pub fn intrinsic_value(excess: Binary64) -> (r: Binary64)
    ensures
        r == intrinsic(excess),
        r == if excess@ is Nan || excess@.le(Value::zero()) {
            Binary64 { bits: 0 }
        } else {
            excess
        },
        Value::zero().le(r@),
{
    excess.max(Binary64::zero())
}

/// The prices of the closed form.
fn closed_form_prices<Add, Sub, Mul, Div, Sqrt, Ln, Exp, Cdf>(
    numerics: &Numerics<Add, Sub, Mul, Div, Sqrt, Ln, Exp, Cdf>,
    s: Binary64,
    k: Binary64,
    t: Binary64,
    r: Binary64,
    sigma: Binary64,
) -> (found: (Binary64, Binary64)) where
    Add: Fn(Binary64, Binary64) -> Binary64,
    Sub: Fn(Binary64, Binary64) -> Binary64,
    Mul: Fn(Binary64, Binary64) -> Binary64,
    Div: Fn(Binary64, Binary64) -> Binary64,
    Sqrt: Fn(Binary64) -> Binary64,
    Ln: Fn(Binary64) -> Binary64,
    Exp: Fn(Binary64) -> Binary64,
    Cdf: Fn(Binary64) -> Binary64,

    requires
        numerics.total(),
    ensures
        exists|steps: ClosedForm| #[trigger]
            numerics.works_closed_form(s, k, t, r, sigma, steps) && found == (
                steps.call,
                steps.put,
            ),
        forall|functions: Functions| #[trigger]
            numerics.computes(functions) ==> found == (
                closed_form(functions, s, k, t, r, sigma).call,
                closed_form(functions, s, k, t, r, sigma).put,
            ),
{
    let sqrt_t = (numerics.square_root)(t);
    let sigma_sqrt_t = (numerics.product)(sigma, sqrt_t);
    let moneyness = (numerics.quotient)(s, k);
    let log_moneyness = (numerics.logarithm)(moneyness);
    let half_sigma = (numerics.product)(Binary64::from_bits(HALF_BITS), sigma);
    let half_variance = (numerics.product)(half_sigma, sigma);
    let growth = (numerics.sum)(r, half_variance);
    let drift = (numerics.product)(growth, t);
    let numerator = (numerics.sum)(log_moneyness, drift);
    let d1 = (numerics.quotient)(numerator, sigma_sqrt_t);
    let d2 = (numerics.difference)(d1, sigma_sqrt_t);

    let nd1 = (numerics.normal_cdf)(d1);
    let nd2 = (numerics.normal_cdf)(d2);
    let nmd1 = (numerics.normal_cdf)(d1.neg());
    let nmd2 = (numerics.normal_cdf)(d2.neg());
    let discount_exponent = (numerics.product)(r.neg(), t);
    let discount = (numerics.exponential)(discount_exponent);
    let discounted_strike = (numerics.product)(k, discount);

    let call_spot_leg = (numerics.product)(s, nd1);
    let call_strike_leg = (numerics.product)(discounted_strike, nd2);
    let call = (numerics.difference)(call_spot_leg, call_strike_leg);
    let put_strike_leg = (numerics.product)(discounted_strike, nmd2);
    let put_spot_leg = (numerics.product)(s, nmd1);
    let put = (numerics.difference)(put_strike_leg, put_spot_leg);
    proof {
        let steps = ClosedForm {
            sqrt_t,
            sigma_sqrt_t,
            moneyness,
            log_moneyness,
            half_sigma,
            half_variance,
            growth,
            drift,
            numerator,
            d1,
            d2,
            nd1,
            nd2,
            nmd1,
            nmd2,
            discount_exponent,
            discount,
            discounted_strike,
            call_spot_leg,
            call_strike_leg,
            call,
            put_strike_leg,
            put_spot_leg,
            put,
        };
        assert(numerics.works_closed_form(s, k, t, r, sigma, steps));
        assert forall|functions: Functions| #[trigger]
            numerics.computes(functions) implies steps == closed_form(
            functions,
            s,
            k,
            t,
            r,
            sigma,
        ) by {}
    }
    (call, put)
}

/// Compute European call and put prices for spot `s`, strike `k`, time to
/// maturity `t` in years, continuously compounded rate `r` and annualized
/// volatility `sigma`.
///
/// Where `t <= 0` or `sigma <= 0` the prices are the intrinsic values of
/// `s - k` and `k - s`, and nothing else is computed. Otherwise they are
/// those of the closed form.
pub fn black_scholes<Add, Sub, Mul, Div, Sqrt, Ln, Exp, Cdf>(
    numerics: &Numerics<Add, Sub, Mul, Div, Sqrt, Ln, Exp, Cdf>,
    s: Binary64,
    k: Binary64,
    t: Binary64,
    r: Binary64,
    sigma: Binary64,
) -> (found: (Binary64, Binary64)) where
    Add: Fn(Binary64, Binary64) -> Binary64,
    Sub: Fn(Binary64, Binary64) -> Binary64,
    Mul: Fn(Binary64, Binary64) -> Binary64,
    Div: Fn(Binary64, Binary64) -> Binary64,
    Sqrt: Fn(Binary64) -> Binary64,
    Ln: Fn(Binary64) -> Binary64,
    Exp: Fn(Binary64) -> Binary64,
    Cdf: Fn(Binary64) -> Binary64,

    requires
        numerics.total(),
    ensures
        numerics.prices(s, k, t, r, sigma, found),
        forall|functions: Functions| #[trigger]
            numerics.computes(functions) ==> found == prices_of(functions, s, k, t, r, sigma),
{
    match pricing_regime(t, sigma) {
        PricingRegime::Intrinsic => {
            let call_excess = (numerics.difference)(s, k);
            let put_excess = (numerics.difference)(k, s);
            assert(numerics.subtracts(s, k, call_excess));
            assert(numerics.subtracts(k, s, put_excess));
            (intrinsic_value(call_excess), intrinsic_value(put_excess))
        },
        PricingRegime::ClosedForm => closed_form_prices(numerics, s, k, t, r, sigma),
    }
}

/// At zero time to maturity, or at zero volatility, the prices are the
/// intrinsic values whatever the rate: the rule is chosen from the time and
/// the volatility alone, and the intrinsic values are made from spot and
/// strike alone.
pub proof fn lemma_zero_time_or_volatility_is_intrinsic(
    functions: Functions,
    s: Binary64,
    k: Binary64,
    t: Binary64,
    r: Binary64,
    sigma: Binary64,
)
    requires
        t@ == Value::zero() || sigma@ == Value::zero(),
    ensures
        is_degenerate(t, sigma),
        prices_of(functions, s, k, t, r, sigma) == (
            intrinsic((functions.difference)(s, k)),
            intrinsic((functions.difference)(k, s)),
        ),
{
}

/// Put-call parity under the intrinsic rule: of the call on an excess and the
/// put on the opposite excess at most one is above zero, and the call less
/// the put is the excess, exactly.
pub proof fn lemma_intrinsic_parity(excess: Binary64, opposite: Binary64)
    requires
        excess@ matches Value::Finite { scaled } && opposite@ == (Value::Finite { scaled: -scaled }),
    ensures
        intrinsic(excess)@ == Value::zero() || intrinsic(opposite)@ == Value::zero(),
        intrinsic(excess)@ matches Value::Finite { scaled: call } && intrinsic(opposite)@
            matches Value::Finite { scaled: put } && excess@ == (Value::Finite {
            scaled: call - put,
        }),
{
}

/// The constant of the closed form is one half, exactly.
pub proof fn lemma_half_is_one_half()
    ensures
        (Binary64 { bits: HALF_BITS })@ matches Value::Finite { scaled } && 2 * scaled == pow2(
            1074,
        ),
{
    lemma2_to64();
    lemma2_to64_rest();
    lemma_pow2_adds(53, 1021);
    assert(2 * (0x10_0000_0000_0000 * pow2(1021)) == pow2(53) * pow2(1021)) by (nonlinear_arith)
        requires
            pow2(53) == 2 * 0x10_0000_0000_0000,
    ;
}

} // verus!
