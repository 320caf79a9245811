//! The constant-price model: the price is flat across the whole remaining
//! supply.

use vstd::prelude::*;

use super::calculator::{CurveCalculator, PriceFraction, TokenOutStep, TradeDirection};
use crate::error::CurveError;
use crate::safe_number::SafeNumber;

verus! {

/// A pricing model that spreads a target capitalization evenly over the
/// current supply: the per-token price is
/// `maximum_market_cap / current_supply`.
#[derive(Clone, Copy, Debug, PartialEq, Eq, Structural)]
pub struct ConstantCurve {
    pub current_supply: u64,
    pub maximum_market_cap: u64,
}

impl ConstantCurve {
    /// Builds the model from the raw integer quantities. A zero supply would
    /// put zero in the price's denominator, so it is rejected at once.
    pub fn new(current_supply: u64, maximum_market_cap: u64) -> (r: Result<
        ConstantCurve,
        CurveError,
    >)
        ensures
            match r {
                Ok(c) => {
                    &&& current_supply > 0
                    &&& c == (ConstantCurve { current_supply, maximum_market_cap })
                    &&& c.wf()
                },
                Err(e) => current_supply == 0 && e == CurveError::DivisionByZero,
            },
    {
        if current_supply == 0 {
            Err(CurveError::DivisionByZero)
        } else {
            Ok(ConstantCurve { current_supply, maximum_market_cap })
        }
    }
}

impl CurveCalculator for ConstantCurve {
    open spec fn wf(&self) -> bool {
        self.current_supply > 0
    }

    open spec fn spec_initial_price(&self) -> PriceFraction {
        PriceFraction {
            numerator: self.maximum_market_cap as u128,
            denominator: self.current_supply as u128,
        }
    }

    fn calculate_initial_price(&self) -> (p: PriceFraction) {
        PriceFraction {
            numerator: self.maximum_market_cap as u128,
            denominator: self.current_supply as u128,
        }
    }

    fn calculate_token_out(
        initial_price: SafeNumber,
        amount: u64,
        trade_direction: TradeDirection,
    ) -> (r: Result<TokenOutStep, CurveError>) {
        super::calculator::token_out_step(initial_price, amount, trade_direction)
    }
}

} // verus!
