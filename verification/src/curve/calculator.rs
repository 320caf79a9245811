//! The capability every pricing model exposes, the trade-direction tag, and
//! the shared direction-dependent conversion.

use vstd::prelude::*;

use crate::error::CurveError;
use crate::safe_number::{frac_len, is_decimal_text, raw_of, unwrapped, Math, SafeNumber, Unwrap};

verus! {

/// Which asset goes in and which comes out of a conversion.
#[derive(Clone, Copy, Debug, PartialEq, Eq, Structural)]
pub enum TradeDirection {
    /// Base asset in, issued token out.
    AtoB,
    /// Issued token in, base asset out.
    BtoA,
}

/// An initial per-token price as an exact ratio: `numerator` base-asset
/// units for every `denominator` token units.
#[derive(Clone, Copy, Debug, PartialEq, Eq, Structural)]
pub struct PriceFraction {
    pub numerator: u128,
    pub denominator: u128,
}

/// The outcome of one conversion step.
///
/// The base-into-token direction finishes at once by scaling the price's raw
/// integer. The token-into-base direction instead re-derives its result from
/// the floating reciprocal `amount / price`: the caller performs that
/// division, renders the quotient as decimal text, and hands it to
/// [`finish_reciprocal_divide`].
#[derive(Clone, Copy, Debug, PartialEq, Eq, Structural)]
pub enum TokenOutStep {
    /// The finished conversion: the output amount.
    Tokens(u64),
    /// The reciprocal divide still owed: the price and the input amount.
    ReciprocalDivide(SafeNumber, u64),
}

/// What a conversion step must return: scaling with rounded conversion for
/// the base-into-token direction, the reciprocal-divide obligation for the
/// other.
pub open spec fn token_out_post(
    price: SafeNumber,
    amount: u64,
    dir: TradeDirection,
    r: Result<TokenOutStep, CurveError>,
) -> bool {
    match dir {
        TradeDirection::AtoB => {
            let scaled = (price.value as nat) * (amount as nat);
            if scaled > u128::MAX {
                r == Err::<TokenOutStep, CurveError>(CurveError::Overflow)
            } else {
                let out = unwrapped(scaled, price.percision as int);
                if out > u64::MAX {
                    r == Err::<TokenOutStep, CurveError>(CurveError::Overflow)
                } else {
                    r == Ok::<TokenOutStep, CurveError>(TokenOutStep::Tokens(out as u64))
                }
            }
        },
        TradeDirection::BtoA => r == Ok::<TokenOutStep, CurveError>(
            TokenOutStep::ReciprocalDivide(price, amount),
        ),
    }
}

/// The shared conversion logic of every pricing model. Base into token:
/// scale the price's raw integer by the amount, then round into a `u64`.
/// Token into base: hand back the reciprocal-divide obligation.
pub fn token_out_step(
    initial_price: SafeNumber,
    amount: u64,
    trade_direction: TradeDirection,
) -> (r: Result<TokenOutStep, CurveError>)
    ensures
        token_out_post(initial_price, amount, trade_direction, r),
{
    match trade_direction {
        TradeDirection::AtoB => {
            match initial_price.mul(amount as u128) {
                Ok(scaled) => match scaled.unwrap::<u64>() {
                    Ok(t) => Ok(TokenOutStep::Tokens(t)),
                    Err(e) => Err(e),
                },
                Err(e) => Err(e),
            }
        },
        TradeDirection::BtoA => Ok(TokenOutStep::ReciprocalDivide(initial_price, amount)),
    }
}

/// Completes a token-into-base conversion from the decimal text of the
/// floating reciprocal `amount / price`: a brand-new fixed-point number is
/// constructed from that text (so its precision is derived afresh) and then
/// rounded into a `u64`.
pub fn finish_reciprocal_divide(reciprocal: &str) -> (r: Result<u64, CurveError>)
    ensures
        match r {
            Ok(t) => {
                &&& is_decimal_text(reciprocal@)
                &&& raw_of(reciprocal@) <= u128::MAX
                &&& frac_len(reciprocal@) <= i32::MAX
                &&& unwrapped(
                    raw_of(reciprocal@),
                    frac_len(reciprocal@) as int,
                ) <= u64::MAX
                &&& t as nat == unwrapped(
                    raw_of(reciprocal@),
                    frac_len(reciprocal@) as int,
                )
            },
            Err(e) => {
                ||| (e == CurveError::InvalidInput && !is_decimal_text(
                    reciprocal@,
                ))
                ||| (e == CurveError::Overflow && is_decimal_text(reciprocal@)
                    && (raw_of(reciprocal@) > u128::MAX
                    || frac_len(reciprocal@) > i32::MAX))
                ||| (e == CurveError::Overflow && is_decimal_text(reciprocal@)
                    && raw_of(reciprocal@) <= u128::MAX
                    && frac_len(reciprocal@) <= i32::MAX && unwrapped(
                    raw_of(reciprocal@),
                    frac_len(reciprocal@) as int,
                ) > u64::MAX)
            },
        },
{
    match SafeNumber::new(reciprocal) {
        Ok(n) => n.unwrap::<u64>(),
        Err(e) => Err(e),
    }
}

/// The capability every pricing model exposes: an initial price derived from
/// the model's stored parameters, and the shared direction-dependent
/// conversion, which is a pure function of its arguments alone.
pub trait CurveCalculator: Sized {
    /// The model's construction invariant.
    spec fn wf(&self) -> bool;

    /// The exact price the model defines.
    spec fn spec_initial_price(&self) -> PriceFraction;

    /// Derives the initial per-token price from the stored parameters.
    fn calculate_initial_price(&self) -> (p: PriceFraction)
        requires
            self.wf(),
        ensures
            p == self.spec_initial_price(),
            p.denominator > 0,
    ;

    /// Converts `amount` using `initial_price` in the given direction.
    fn calculate_token_out(
        initial_price: SafeNumber,
        amount: u64,
        trade_direction: TradeDirection,
    ) -> (r: Result<TokenOutStep, CurveError>)
        ensures
            token_out_post(initial_price, amount, trade_direction, r),
    ;
}

/// The two trade directions never share a formula, whatever the price and
/// amount: base-into-token scales the raw integer (and, when it succeeds,
/// yields exactly the rounded scaled value), while token-into-base always
/// defers to the floating reciprocal divide. The two are not inverses of one
/// another in general.
pub proof fn lemma_directions_use_distinct_formulas(
    price: SafeNumber,
    amount: u64,
    ra: Result<TokenOutStep, CurveError>,
    rb: Result<TokenOutStep, CurveError>,
)
    requires
        price.value > 0,
        token_out_post(price, amount, TradeDirection::AtoB, ra),
        token_out_post(price, amount, TradeDirection::BtoA, rb),
    ensures
        rb == Ok::<TokenOutStep, CurveError>(TokenOutStep::ReciprocalDivide(price, amount)),
        ra matches Ok(step) ==> step matches TokenOutStep::Tokens(t) && t as nat == unwrapped(
            (price.value as nat) * (amount as nat),
            price.percision as int,
        ),
{
}

} // verus!
