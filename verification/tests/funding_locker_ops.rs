use yield_farming::decimal::Decimal;
use yield_farming::funding_locker::{FundingLocker, LockerError};
use yield_farming::structs::{Loan, PaymentFrequency, Status};

fn d(units: i64) -> Decimal {
    Decimal::from_attos(units as i128 * 1_000_000_000_000_000_000)
}

fn loan() -> Loan {
    Loan {
        borrower_id: 2,
        lender_id: 9,
        principal_loan_amount: d(100),
        asset: 1,
        collateral: 7,
        collateral_percent: Decimal::new(5, 1),
        annualized_interest_rate: Decimal::new(1, 1),
        term_length: 3,
        payments_remaining: 3,
        payment_frequency: PaymentFrequency::Monthly,
        origination_fee: Decimal::new(1, 2),
        origination_fee_charged: d(1),
        annualized_interest_expense: d(0),
        accrued_interest_expense: d(0),
        remaining_balance: d(100),
        draw_limit: d(50),
        draw_minimum: d(10),
        last_draw: 0,
        collateral_amount: d(0),
        collateral_amount_usd: d(0),
        health_factor: d(0),
        loan_status: Status::Current,
    }
}

#[test]
fn locker_collateral_and_funding() {
    let mut l = FundingLocker::new(4, 6, loan());
    assert_eq!(l.deposit_collateral(9, 7, d(10)), Err(LockerError::IncorrectProof));
    assert_eq!(l.deposit_collateral(4, 8, d(10)), Err(LockerError::IncorrectCollateral));
    assert_eq!(l.deposit_collateral(4, 7, d(10)), Ok(false));
    assert_eq!(l.deposit_collateral(4, 7, d(40)), Ok(true));
    assert_eq!(l.loan.loan_status, Status::ReadyToFund);
    assert!(!l.loan_nft_held);
    assert_eq!(l.fund_loan(2, d(10)), Err(LockerError::IncorrectFundingToken));
    assert_eq!(l.fund_loan(1, d(60)), Ok(d(0)));
    assert_eq!(l.fund_loan(1, d(60)), Ok(d(20)));
    assert_eq!(l.loan_proceeds, d(100));
}

#[test]
fn locker_draw_request_checks_limits() {
    let mut l = FundingLocker::new(4, 6, loan());
    assert_eq!(l.draw_request(9, d(20)), Err(LockerError::IncorrectLoanBadge));
    assert_eq!(l.draw_request(6, d(20)), Err(LockerError::NotFunded));
    assert_eq!(l.fund_loan(1, d(100)), Ok(d(0)));
    assert_eq!(l.draw_request(6, d(60)), Err(LockerError::ExceedsDrawLimit));
    assert_eq!(l.draw_request(6, d(5)), Err(LockerError::BelowDrawMinimum));
    assert_eq!(l.reject_draw_request(), Err(LockerError::NoDrawRequest));
    assert_eq!(l.view_draw_request(), None);
    assert_eq!(l.draw_request(6, d(20)), Ok(()));
    assert_eq!(l.view_draw_request(), Some(d(20)));
}

#[test]
fn locker_exact_last_payment_pays_off_the_loan() {
    let mut last = loan();
    last.payments_remaining = 1;
    last.accrued_interest_expense = d(5);
    let mut l = FundingLocker::new(4, 6, last);
    assert_eq!(l.fund_loan(1, d(100)), Ok(d(0)));
    assert_eq!(l.make_payment(6, 1, d(104)), Err(LockerError::InsufficientPayment));
    assert_eq!(l.make_payment(6, 1, d(105)), Ok(None));
    assert_eq!(l.loan.remaining_balance, d(0));
    assert_eq!(l.loan.accrued_interest_expense, d(0));
    assert_eq!(l.loan.payments_remaining, 0);
    assert_eq!(l.loan.loan_status, Status::PaidOff);
    assert_eq!(l.fee_vault, d(105));
    assert_eq!(l.make_payment(6, 1, d(1)), Err(LockerError::NotDrawn));
}
