use yield_farming::decimal::Decimal;

fn d(units: i64) -> Decimal {
    Decimal::from_attos(units as i128 * 1_000_000_000_000_000_000)
}

#[test]
fn decimal_mul_truncates_toward_zero() {
    assert_eq!(Decimal::new(25, 1).mul(d(4)), d(10));
    assert_eq!(Decimal::new(1001, 3).mul(d(1000)), d(1001));
    assert_eq!(Decimal::from_attos(1).mul(Decimal::from_attos(1)), d(0));
    assert_eq!(Decimal::from_attos(-3).mul(Decimal::new(5, 1)), Decimal::from_attos(-1));
}

#[test]
fn decimal_div_truncates_toward_zero() {
    assert_eq!(d(1).div(d(3)), Decimal::from_attos(333_333_333_333_333_333));
    assert_eq!(d(-1).div(d(3)), Decimal::from_attos(-333_333_333_333_333_333));
    assert_eq!(d(10).div(d(4)), Decimal::new(25, 1));
}

#[test]
fn decimal_checked_ops_report_overflow_and_zero_divisor() {
    let big = Decimal::from_attos(i128::MAX);
    assert_eq!(big.checked_add(Decimal::from_attos(1)), None);
    assert_eq!(big.checked_mul(d(2)), None);
    assert_eq!(d(1).checked_div(d(0)), None);
    assert_eq!(d(6).checked_div(d(3)), Some(d(2)));
    assert_eq!(d(6).checked_mul(Decimal::new(5, 1)), Some(d(3)));
    assert_eq!(d(6).checked_sub(d(8)), Some(d(-2)));
}

#[test]
fn decimal_rounds_up_to_hundredths() {
    assert_eq!(Decimal::new(1001, 3).round_up_hundredths(), Decimal::new(101, 2));
    assert_eq!(d(1).round_up_hundredths(), d(1));
    assert_eq!(Decimal::new(-1005, 3).round_up_hundredths(), d(-1));
}

#[test]
fn decimal_rounds_to_nearest_tenth_half_away_from_zero() {
    assert_eq!(Decimal::new(95, 2).round_nearest_tenths(), d(1));
    assert_eq!(Decimal::new(94, 2).round_nearest_tenths(), Decimal::new(9, 1));
    assert_eq!(Decimal::new(-95, 2).round_nearest_tenths(), d(-1));
    assert_eq!(Decimal::new(5, 2).round_nearest_tenths(), Decimal::new(1, 1));
}

#[test]
fn decimal_compares_and_picks_minimum() {
    assert!(d(1).lt(d(2)));
    assert!(d(2).ge(d(2)));
    assert!(!d(3).le(d(2)));
    assert_eq!(d(3).min(d(2)), d(2));
    assert_eq!(Decimal::from_u64(7), d(7));
    assert!(Decimal::zero().is_zero());
}
