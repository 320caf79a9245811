use bounding_curve::error::CurveError;
use bounding_curve::safe_number::{Math, SafeNumber};

#[test]
fn precision_comes_from_the_fraction_digits() {
    let n = SafeNumber::new("1.25").unwrap();
    assert_eq!(n.value, 125);
    assert_eq!(n.percision, 2);

    let m = SafeNumber::new("42").unwrap();
    assert_eq!(m.value, 42);
    assert_eq!(m.percision, 0);

    let w = SafeNumber::new("0.00005555555555555556").unwrap();
    assert_eq!(w.value, 5_555_555_555_555_556);
    assert_eq!(w.percision, 20);
}

#[test]
fn construction_round_trips_through_the_float_rendering() {
    // the canonical decimal text of a double has as many fraction digits as
    // the double's shortest rendering, and the represented value reproduces
    // the double exactly
    for (literal, digits) in [(0.1f64, 1), (1.25f64, 2), (12.3456f64, 4), (3.0f64, 0)] {
        let n = SafeNumber::new(&literal.to_string()).unwrap();
        assert_eq!(n.percision, digits);
        let back = n.value as f64 / 10f64.powi(n.percision);
        assert_eq!(back, literal);
    }
}

#[test]
fn equality_is_structural_not_semantic() {
    let a = SafeNumber::new("1.5").unwrap();
    let b = SafeNumber::new("1.50").unwrap();
    // both stand for the same decimal amount...
    assert_eq!(a.value * 10, b.value);
    assert_eq!(a.percision + 1, b.percision);
    // ...but they are not equal, and a same-fields copy is
    assert_ne!(a, b);
    assert_eq!(a, SafeNumber::clone(15, 1));
}

#[test]
fn rejected_texts() {
    for bad in ["", ".", "-1", "1.", ".5", "1.2.3", "1e5", "NaN", "inf", " 1", "1 "] {
        assert_eq!(SafeNumber::new(bad), Err(CurveError::InvalidInput), "text: {:?}", bad);
    }
}

#[test]
fn too_many_digits_overflow() {
    let forty_nines = "9".repeat(40);
    assert_eq!(SafeNumber::new(&forty_nines), Err(CurveError::Overflow));
    // the largest raw value still fits
    let max = u128::MAX.to_string();
    let n = SafeNumber::new(&max).unwrap();
    assert_eq!(n.value, u128::MAX);
    assert_eq!(n.percision, 0);
}

#[test]
fn unwrap_rounds_to_nearest_ties_away_from_zero() {
    assert_eq!(SafeNumber::clone(25, 1).unwrap::<u64>(), Ok(3));
    assert_eq!(SafeNumber::clone(15, 1).unwrap::<u64>(), Ok(2));
    assert_eq!(SafeNumber::clone(14, 1).unwrap::<u64>(), Ok(1));
    assert_eq!(SafeNumber::clone(149, 2).unwrap::<u64>(), Ok(1));
    assert_eq!(SafeNumber::clone(150, 2).unwrap::<u64>(), Ok(2));
    assert_eq!(SafeNumber::clone(0, 5).unwrap::<u64>(), Ok(0));
    // a negative precision scales up instead
    assert_eq!(SafeNumber::clone(5, -3).unwrap::<u64>(), Ok(5000));
}

#[test]
fn unwrap_reports_out_of_range_results() {
    assert_eq!(SafeNumber::clone(u128::MAX, 0).unwrap::<u64>(), Err(CurveError::Overflow));
    assert_eq!(SafeNumber::clone(u128::MAX, 0).unwrap::<u128>(), Ok(u128::MAX));
    assert_eq!(SafeNumber::clone(5, -60).unwrap::<u128>(), Err(CurveError::Overflow));
    assert_eq!(SafeNumber::clone(0, -60).unwrap::<u128>(), Ok(0));
    // a precision far past the raw digits rounds everything to zero
    assert_eq!(SafeNumber::clone(u128::MAX, 100).unwrap::<u64>(), Ok(0));
}

#[test]
fn scaling_keeps_the_precision() {
    let n = SafeNumber::new("1.25").unwrap();
    let m = n.mul(4).unwrap();
    assert_eq!(m.value, 500);
    assert_eq!(m.percision, 2);
    assert_eq!(m.unwrap::<u64>(), Ok(5));
    assert_eq!(
        SafeNumber::clone(u128::MAX, 0).mul(2),
        Err(CurveError::Overflow)
    );
}

#[test]
fn shrinking_truncates_and_keeps_the_precision() {
    let n = SafeNumber::new("1.00").unwrap();
    let m = n.div(3).unwrap();
    assert_eq!(m.value, 33);
    assert_eq!(m.percision, 2);
    assert_eq!(n.div(0), Err(CurveError::DivisionByZero));
}
