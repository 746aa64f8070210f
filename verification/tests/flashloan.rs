use yield_farming::decimal::Decimal;
use yield_farming::flashloan::{FlashLoan, FlashLoanError, LoanDue};

fn d(units: i64) -> Decimal {
    Decimal::from_attos(units as i128 * 1_000_000_000_000_000_000)
}

#[test]
fn flash_loan_due_is_loan_plus_tenth_of_percent() {
    let mut lender = FlashLoan::new(d(5000), 77);
    let (loan, terms) = lender.take_loan(d(1000)).unwrap();
    assert_eq!(loan, d(1000));
    assert_eq!(terms.amount_due, d(1001));
    assert_eq!(lender.liquidity, d(4000));
}

#[test]
fn flash_loan_repaid_in_full_grows_liquidity() {
    let mut lender = FlashLoan::new(d(5000), 77);
    let (_, terms) = lender.take_loan(d(1000)).unwrap();
    lender.repay_loan(d(1001), 77, terms).unwrap();
    assert_eq!(lender.liquidity, d(5001));
}

#[test]
fn flash_loan_refusals() {
    let mut lender = FlashLoan::new(d(10), 77);
    assert_eq!(lender.take_loan(d(11)), Err(FlashLoanError::InsufficientLiquidity));
    assert_eq!(lender.take_loan(d(-1)), Err(FlashLoanError::InvalidAmount));
    let terms = LoanDue { amount_due: d(5) };
    assert_eq!(lender.repay_loan(d(5), 78, terms), Err(FlashLoanError::WrongLoanTerms));
    assert_eq!(lender.repay_loan(d(4), 77, terms), Err(FlashLoanError::InsufficientRepayment));
    assert_eq!(lender.liquidity, d(10));
    let mut full = FlashLoan::new(Decimal::from_attos(i128::MAX), 77);
    assert_eq!(full.repay_loan(d(5), 77, terms), Err(FlashLoanError::Overflow));
}
