use yield_farming::borrower_dashboard::{BorrowerDashboard, BorrowerDashboardError};
use yield_farming::decimal::Decimal;
use yield_farming::fund_manager_dashboard::{DashboardError, FundManagerDashboard};
use yield_farming::funding_locker::{FundingLocker, LockerError};
use yield_farming::investor_dashboard::InvestorDashboard;
use yield_farming::maple_finance::{MapleFinance, RegistryError};
use yield_farming::price_oracle::PriceOracle;
use yield_farming::structs::{Loan, PaymentFrequency, Status};

fn d(units: i64) -> Decimal {
    Decimal::from_attos(units as i128 * 1_000_000_000_000_000_000)
}

const ADMIN: u64 = 1;
const TEMP: u64 = 2;
const BORROWER: u64 = 3;
const REQUEST: u64 = 4;
const MANAGER: u64 = 5;
const LOAN_NFT: u64 = 6;
const COLLATERAL: u64 = 7;

fn loan(principal: Decimal) -> Loan {
    Loan {
        borrower_id: 2,
        lender_id: 9,
        principal_loan_amount: principal,
        asset: 1,
        collateral: COLLATERAL,
        collateral_percent: Decimal::new(5, 1),
        annualized_interest_rate: Decimal::new(1, 1),
        term_length: 3,
        payments_remaining: 3,
        payment_frequency: PaymentFrequency::Monthly,
        origination_fee: Decimal::new(1, 2),
        origination_fee_charged: d(1),
        annualized_interest_expense: d(0),
        accrued_interest_expense: d(0),
        remaining_balance: principal,
        draw_limit: d(50),
        draw_minimum: d(10),
        last_draw: 0,
        collateral_amount: d(0),
        collateral_amount_usd: d(0),
        health_factor: d(0),
        loan_status: Status::Current,
    }
}

#[test]
fn fund_manager_dashboard_opens_and_registers_an_index_fund() {
    let mut registry = MapleFinance::new(ADMIN, TEMP, BORROWER, REQUEST);
    let mut oracle = PriceOracle::new();
    let mut dash = FundManagerDashboard::new(MANAGER, 2, "carol".to_string(), REQUEST, LOAN_NFT, 30, 31);
    let weights = vec![(10, d(1))];
    let wrong = dash.new_index_fund(
        &mut registry, &mut oracle, 99, "Alpha".to_string(), d(1), "ALP".to_string(), d(1),
        &weights, 40, 41, 42, 500,
    );
    assert_eq!(wrong.err(), Some(DashboardError::Unauthorized));
    let fund = dash
        .new_index_fund(
            &mut registry, &mut oracle, MANAGER, "Alpha".to_string(), d(1), "ALP".to_string(), d(1),
            &weights, 40, 41, 42, 500,
        )
        .unwrap();
    assert_eq!(fund.fund_name, "Alpha");
    assert_eq!(fund.fund_ticker, "ALP");
    assert_eq!(oracle.get_price(42), Some(d(1)));
    assert_eq!(registry.get_index_fund(&"Alpha".to_string()), Ok(500));
    assert_eq!(dash.manager.managed_index_funds.len(), 1);
    assert_eq!(dash.view_managed_index_funds(99), Err(DashboardError::Unauthorized));
    assert_eq!(
        dash.view_managed_index_funds(MANAGER),
        Ok(vec![(("Alpha".to_string(), "ALP".to_string()), 500)])
    );
    let again = dash.new_index_fund(
        &mut registry, &mut oracle, MANAGER, "Alpha".to_string(), d(1), "ALP".to_string(), d(1),
        &weights, 40, 41, 42, 501,
    );
    assert_eq!(again.err(), Some(DashboardError::NameTaken));
}

#[test]
fn fund_manager_dashboard_opens_a_debt_fund_once() {
    let mut registry = MapleFinance::new(ADMIN, TEMP, BORROWER, REQUEST);
    let mut dash = FundManagerDashboard::new(MANAGER, 2, "carol".to_string(), REQUEST, LOAN_NFT, 30, 31);
    let f = dash.new_debt_fund(&mut registry, MANAGER, 1, d(100), 50, 51, LOAN_NFT, 600).unwrap();
    assert_eq!(f.vault, d(100));
    assert_eq!(registry.debt_funds, vec![(2, 600)]);
    assert_eq!(dash.view_managed_debt_funds(MANAGER), Ok(vec![(1, 600)]));
    assert_eq!(dash.view_managed_debt_funds(99), Err(DashboardError::Unauthorized));
    assert!(dash.new_debt_fund(&mut registry, MANAGER, 1, d(100), 50, 51, LOAN_NFT, 601).is_err());
    assert_eq!(dash.insert_funding_locker(&mut registry, 99, 1, 700), Err(DashboardError::Unauthorized));
    assert_eq!(dash.insert_funding_locker(&mut registry, LOAN_NFT, 1, 700), Ok(()));
    assert_eq!(registry.retrieve_funding_locker_address(1), Ok(700));
}

#[test]
fn borrower_dashboard_requests_and_collateralises_a_loan() {
    let mut registry = MapleFinance::new(ADMIN, TEMP, BORROWER, REQUEST);
    let mut dash = BorrowerDashboard::new(BORROWER, 2, "bob".to_string(), REQUEST, 31);
    assert_eq!(
        dash.request_new_loan(&mut registry, 99, 1, d(100), COLLATERAL, Decimal::new(5, 1), 3,
            Decimal::new(1, 1), PaymentFrequency::Monthly),
        Err(BorrowerDashboardError::Unauthorized)
    );
    let id = dash
        .request_new_loan(&mut registry, BORROWER, 1, d(100), COLLATERAL, Decimal::new(5, 1), 3,
            Decimal::new(1, 1), PaymentFrequency::Monthly)
        .unwrap();
    assert_eq!(registry.view_loan_requests(2), Ok(vec![id]));
    assert_eq!(dash.borrower.loan_requests, vec![id]);
    let mut locker = FundingLocker::new(REQUEST, LOAN_NFT, loan(d(100)));
    assert_eq!(
        dash.deposit_collateral(&mut registry, &mut locker, 700, BORROWER, id, COLLATERAL, d(10)),
        Err(BorrowerDashboardError::NotApproved)
    );
    dash.update_loan_request(id, 88, 700).unwrap();
    assert_eq!(
        dash.deposit_collateral(&mut registry, &mut locker, 701, BORROWER, id, COLLATERAL, d(10)),
        Err(BorrowerDashboardError::WrongLocker)
    );
    assert_eq!(
        dash.deposit_collateral(&mut registry, &mut locker, 700, BORROWER, id, COLLATERAL, d(10)),
        Ok(None)
    );
    assert_eq!(registry.view_loan_requests(2), Ok(vec![id]));
    assert_eq!(
        dash.deposit_collateral(&mut registry, &mut locker, 700, BORROWER, id, COLLATERAL, d(40)),
        Ok(Some(88))
    );
    assert_eq!(locker.collateral, d(50));
    assert_eq!(dash.view_loans(BORROWER), Ok(vec![88]));
    assert_eq!(registry.view_loan_requests(2), Ok(vec![]));
}

#[test]
fn investor_dashboard_routes_to_the_registered_fund() {
    let mut registry = MapleFinance::new(ADMIN, TEMP, BORROWER, REQUEST);
    let mut oracle = PriceOracle::new();
    oracle.set_price(10, d(2));
    let mut manager = FundManagerDashboard::new(MANAGER, 2, "carol".to_string(), REQUEST, LOAN_NFT, 30, 31);
    let mut fund = manager
        .new_index_fund(
            &mut registry, &mut oracle, MANAGER, "Alpha".to_string(), d(1), "ALP".to_string(), d(1),
            &vec![(10, d(1))], 40, 41, 42, 500,
        )
        .unwrap();
    let investor = InvestorDashboard::new(31);
    let name = "Alpha".to_string();
    assert!(investor.issue_tokens(&registry, &mut fund, 501, &name, &vec![(10, d(1))], &oracle).is_err());
    assert_eq!(investor.issue_tokens(&registry, &mut fund, 500, &name, &vec![(10, d(1))], &oracle), Ok(d(2)));
    assert_eq!(investor.retrieve_index_funds_lists(&registry).len(), 1);
    let back = investor.redeem_fund_tokens(&registry, &mut fund, 500, &name, 42, d(1), &oracle).unwrap();
    assert_eq!(back, vec![d(1)]);
}

#[test]
fn borrower_dashboard_draws_and_pays_through_the_registered_locker() {
    let mut registry = MapleFinance::new(ADMIN, TEMP, BORROWER, REQUEST);
    let mut dash = BorrowerDashboard::new(BORROWER, 2, "bob".to_string(), REQUEST, 31);
    assert_eq!(
        dash.view_approved_loan_requests(&registry),
        Err(BorrowerDashboardError::Registry(RegistryError::NoLoanRequests))
    );
    let id = dash
        .request_new_loan(&mut registry, BORROWER, 1, d(100), COLLATERAL, Decimal::new(5, 1), 3,
            Decimal::new(1, 1), PaymentFrequency::Monthly)
        .unwrap();
    assert_eq!(dash.view_approved_loan_requests(&registry), Ok(vec![]));
    dash.update_loan_request(id, 88, 700).unwrap();
    assert_eq!(dash.view_approved_loan_requests(&registry), Ok(vec![id]));
    registry.insert_funding_lockers(88, 700).unwrap();
    let mut locker = FundingLocker::new(REQUEST, LOAN_NFT, loan(d(100)));
    assert_eq!(
        dash.draw_request(&registry, &mut locker, 700, 77, LOAN_NFT, d(20)),
        Err(BorrowerDashboardError::Registry(RegistryError::NotFound))
    );
    assert_eq!(
        dash.draw_request(&registry, &mut locker, 701, 88, LOAN_NFT, d(20)),
        Err(BorrowerDashboardError::WrongLocker)
    );
    assert_eq!(
        dash.draw_request(&registry, &mut locker, 700, 88, LOAN_NFT, d(20)),
        Ok(Err(LockerError::NotFunded))
    );
    locker.fund_loan(1, d(100)).unwrap();
    assert_eq!(dash.draw_request(&registry, &mut locker, 700, 88, LOAN_NFT, d(20)), Ok(Ok(())));
    locker.approve_draw_request().unwrap();
    assert_eq!(dash.receive_draw(&registry, &mut locker, 700, 88, LOAN_NFT, 5), Ok(Ok(d(19))));
    assert_eq!(locker.loan.remaining_balance, d(120));
    assert_eq!(dash.make_payment(&registry, &mut locker, 700, 88, LOAN_NFT, 9, d(0)), Ok(Err(LockerError::IncorrectPaymentToken)));
    assert_eq!(dash.make_payment(&registry, &mut locker, 700, 88, LOAN_NFT, 1, d(0)), Ok(Ok(None)));
}
