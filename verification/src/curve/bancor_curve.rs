//! The connector-weighted (Bancor-style) model: the price follows the
//! reserve balance, the supply, and a reserve ratio.

use vstd::arithmetic::mul::lemma_mul_upper_bound;
use vstd::prelude::*;

use super::calculator::{CurveCalculator, PriceFraction, TokenOutStep, TradeDirection};
use crate::error::CurveError;
use crate::safe_number::SafeNumber;

verus! {

/// One whole in reserve-ratio units: the ratio is stated in billionths, so a
/// connector weight of one is `1_000_000_000`.
pub const RESERVE_RATIO_ONE: u64 = 1_000_000_000;

/// A Bancor-style pricing model: the per-token price is
/// `token_b_reserve_balance / (token_a_current_supply * weight)`, where the
/// connector weight is `reserve_ratio / RESERVE_RATIO_ONE`, a value in
/// (0, 1].
#[derive(Clone, Copy, Debug, PartialEq, Eq, Structural)]
pub struct BancorCurve {
    pub token_a_current_supply: u64,
    pub token_b_reserve_balance: u64,
    /// The connector weight in billionths of one.
    pub reserve_ratio: u64,
}

impl BancorCurve {
    /// Builds the model from the raw integer quantities and the connector
    /// weight in billionths. A zero supply or a zero weight would put zero in
    /// the price's denominator, and a weight above one whole is outside the
    /// connector weight's range.
    pub fn new(
        token_a_current_supply: u64,
        token_b_reserve_balance: u64,
        reserve_ratio: u64,
    ) -> (r: Result<BancorCurve, CurveError>)
        ensures
            match r {
                Ok(c) => {
                    &&& token_a_current_supply > 0
                    &&& 0 < reserve_ratio <= RESERVE_RATIO_ONE
                    &&& c == (BancorCurve {
                        token_a_current_supply,
                        token_b_reserve_balance,
                        reserve_ratio,
                    })
                    &&& c.wf()
                },
                Err(e) => {
                    ||| (e == CurveError::DivisionByZero && (token_a_current_supply == 0
                        || reserve_ratio == 0))
                    ||| (e == CurveError::InvalidInput && token_a_current_supply > 0
                        && reserve_ratio > RESERVE_RATIO_ONE)
                },
            },
    {
        if token_a_current_supply == 0 || reserve_ratio == 0 {
            Err(CurveError::DivisionByZero)
        } else if reserve_ratio > RESERVE_RATIO_ONE {
            Err(CurveError::InvalidInput)
        } else {
            Ok(BancorCurve { token_a_current_supply, token_b_reserve_balance, reserve_ratio })
        }
    }
}

impl CurveCalculator for BancorCurve {
    open spec fn wf(&self) -> bool {
        self.token_a_current_supply > 0 && 0 < self.reserve_ratio <= RESERVE_RATIO_ONE
    }

    open spec fn spec_initial_price(&self) -> PriceFraction {
        PriceFraction {
            numerator: (self.token_b_reserve_balance * RESERVE_RATIO_ONE) as u128,
            denominator: (self.token_a_current_supply * self.reserve_ratio) as u128,
        }
    }

    fn calculate_initial_price(&self) -> (p: PriceFraction) {
        proof {
            lemma_mul_upper_bound(
                self.token_b_reserve_balance as int,
                u64::MAX as int,
                RESERVE_RATIO_ONE as int,
                RESERVE_RATIO_ONE as int,
            );
            lemma_mul_upper_bound(
                self.token_a_current_supply as int,
                u64::MAX as int,
                self.reserve_ratio as int,
                RESERVE_RATIO_ONE as int,
            );
            vstd::arithmetic::mul::lemma_mul_inequality(
                1,
                self.token_a_current_supply as int,
                self.reserve_ratio as int,
            );
        }
        let numerator = (self.token_b_reserve_balance as u128) * (RESERVE_RATIO_ONE as u128);
        let denominator = (self.token_a_current_supply as u128) * (self.reserve_ratio as u128);
        PriceFraction { numerator, denominator }
    }

    fn calculate_token_out(
        initial_price: SafeNumber,
        amount: u64,
        trade_direction: TradeDirection,
    ) -> (r: Result<TokenOutStep, CurveError>) {
        super::calculator::token_out_step(initial_price, amount, trade_direction)
    }
}

} // verus!
