use bounding_curve::curve::bancor_curve::BancorCurve;
use bounding_curve::curve::calculator::{
    finish_reciprocal_divide, CurveCalculator, PriceFraction, TokenOutStep, TradeDirection,
};
use bounding_curve::curve::constant_curve::ConstantCurve;
use bounding_curve::error::CurveError;
use bounding_curve::safe_number::SafeNumber;

/// The floating edge: evaluates a price fraction in binary64 and parses its
/// canonical decimal rendering into a fixed-point number.
fn price_of(fraction: PriceFraction) -> SafeNumber {
    let q = fraction.numerator as f64 / fraction.denominator as f64;
    SafeNumber::new(&q.to_string()).unwrap()
}

/// The floating edge of a token-into-base conversion: performs the
/// reciprocal divide that a conversion step hands back, then lets the
/// library finish.
fn run_token_out(
    price: SafeNumber,
    amount: u64,
    direction: TradeDirection,
) -> Result<u64, CurveError> {
    match ConstantCurve::calculate_token_out(price, amount, direction)? {
        TokenOutStep::Tokens(t) => Ok(t),
        TokenOutStep::ReciprocalDivide(p, a) => {
            let price_f = p.value as f64 / 10f64.powi(p.percision);
            let q = a as f64 / price_f;
            finish_reciprocal_divide(&q.to_string())
        }
    }
}

#[test]
fn constant_curve_sell_mint_fraction_to_meet_maximum_cap() {
    let total_supply = 1_000_000_000u64 * 10u64.pow(6);
    let sell_fraction = total_supply / 3;
    let maximum_market_cap = 50u64 * 10u64.pow(9);

    let curve = ConstantCurve::new(sell_fraction, maximum_market_cap).unwrap();
    let initial_price = price_of(curve.calculate_initial_price());

    let token_out = run_token_out(initial_price, maximum_market_cap, TradeDirection::BtoA).unwrap();
    assert_eq!(
        token_out, sell_fraction,
        "we are only selling this fraction to migrate to raydium"
    );

    let sol_out = run_token_out(initial_price, token_out, TradeDirection::AtoB).unwrap();
    assert_eq!(
        sol_out, maximum_market_cap,
        "we reached the target marketcap"
    );
}

#[test]
fn bancor_curve_sell_mint_fraction_to_meet_maximum_cap() {
    let total_supply = 1_000_000_000u64 * 10u64.pow(6);
    let reserve_balance = 50u64 * 10u64.pow(9);
    let reserve_ratio = 0.9f64;

    let curve = BancorCurve::new(
        total_supply,
        reserve_balance,
        (reserve_ratio * 1e9) as u64,
    )
    .unwrap();
    let fraction = curve.calculate_initial_price();
    // the same binary64 evaluation the curve describes
    let price_f = reserve_balance as f64 / (total_supply as f64 * reserve_ratio);
    let initial_price = SafeNumber::new(&price_f.to_string()).unwrap();
    // the exact fraction agrees with the floating evaluation
    assert_eq!(
        price_of(fraction),
        initial_price,
        "we are testing math accuracy"
    );

    assert_eq!(
        initial_price,
        SafeNumber::new("0.00005555555555555556").unwrap(),
        "we are testing math accuracy"
    );
}

#[test]
fn connector_weighted_price_formula() {
    let supply = 1_000_000_000u64 * 10u64.pow(6);
    let reserve = 50u64 * 10u64.pow(9);
    let curve = BancorCurve::new(supply, reserve, 900_000_000).unwrap();
    let fraction = curve.calculate_initial_price();
    assert_eq!(fraction.numerator, reserve as u128 * 1_000_000_000);
    assert_eq!(fraction.denominator, supply as u128 * 900_000_000);
    let price = price_of(fraction);
    assert_eq!(price.value, 5_555_555_555_555_556);
    assert_eq!(price.percision, 20);
}

#[test]
fn zero_supply_is_a_division_by_zero() {
    assert_eq!(
        ConstantCurve::new(0, 50).err(),
        Some(CurveError::DivisionByZero)
    );
    assert_eq!(
        BancorCurve::new(0, 50, 900_000_000).err(),
        Some(CurveError::DivisionByZero)
    );
    assert_eq!(
        BancorCurve::new(100, 50, 0).err(),
        Some(CurveError::DivisionByZero)
    );
    assert_eq!(
        BancorCurve::new(100, 50, 1_000_000_001).err(),
        Some(CurveError::InvalidInput)
    );
}

#[test]
fn directions_use_distinct_formulas() {
    let price = SafeNumber::new("2.0").unwrap();
    // base into token: the scaled, rounded result comes back at once
    assert_eq!(
        ConstantCurve::calculate_token_out(price, 21, TradeDirection::AtoB),
        Ok(TokenOutStep::Tokens(42))
    );
    // token into base: the reciprocal divide is handed back instead
    assert_eq!(
        BancorCurve::calculate_token_out(price, 21, TradeDirection::BtoA),
        Ok(TokenOutStep::ReciprocalDivide(price, 21))
    );
    // and the finished results differ: 21 * 2 against 21 / 2
    assert_eq!(run_token_out(price, 21, TradeDirection::AtoB), Ok(42));
    assert_eq!(run_token_out(price, 21, TradeDirection::BtoA), Ok(11));
}

#[test]
fn reciprocal_divide_propagates_parsing_failures() {
    // the text a floating divide can produce for a bad quotient
    assert_eq!(
        finish_reciprocal_divide("inf"),
        Err(CurveError::InvalidInput)
    );
    assert_eq!(
        finish_reciprocal_divide("NaN"),
        Err(CurveError::InvalidInput)
    );
    // a quotient too large for any integer kind
    let huge = "9".repeat(45);
    assert_eq!(finish_reciprocal_divide(&huge), Err(CurveError::Overflow));
    // a quotient that parses but rounds past u64
    assert_eq!(
        finish_reciprocal_divide(&u128::MAX.to_string()),
        Err(CurveError::Overflow)
    );
    assert_eq!(finish_reciprocal_divide("12.5"), Ok(13));
}

#[test]
fn scaling_overflow_is_reported() {
    let price = SafeNumber::clone(u128::MAX, 0);
    assert_eq!(
        ConstantCurve::calculate_token_out(price, 2, TradeDirection::AtoB),
        Err(CurveError::Overflow)
    );
    // a huge finished result no u64 can hold
    let price = SafeNumber::clone(u64::MAX as u128 + 1, 0);
    assert_eq!(
        ConstantCurve::calculate_token_out(price, 1, TradeDirection::AtoB),
        Err(CurveError::Overflow)
    );
}
