use yield_farming::debt_fund::{DebtFund, DebtFundError};
use yield_farming::decimal::Decimal;
use yield_farming::farmers_market::FarmersMarket;
use yield_farming::investor_dashboard::{InvestorDashboard, InvestorDashboardError};
use yield_farming::maple_finance::RegistryError;
use yield_farming::structs::{RequestStatus, UserType};

const ADMIN: u64 = 1;
const TEMP: u64 = 2;
const BORROWER: u64 = 3;
const REQUEST: u64 = 4;
const ORACLE: u64 = 5;

fn market() -> FarmersMarket {
    FarmersMarket::new(ADMIN, TEMP, BORROWER, REQUEST, ORACLE)
}

#[test]
fn farmers_market_onboards_a_farmer() {
    let mut m = market();
    assert_eq!(m.price_oracle_address, ORACLE);
    let t = m.registry.create_temporary_badge("carol".to_string(), UserType::FundManager).unwrap();
    let name = "carol".to_string();
    assert_eq!(m.create_farmer(99, &name, 700), Err(RegistryError::Unauthorized));
    assert_eq!(m.create_farmer(ADMIN, &name, 700), Ok(700));
    let badge = 2;
    assert_eq!(m.registry.fund_manager_dashboards, vec![(badge, 700)]);
    assert_eq!(m.registry.temporary_badges[0].2, RequestStatus::Approved);
    assert_eq!(m.registry.borrowers, vec![2]);
    assert_eq!(m.create_farmer(ADMIN, &name, 700), Err(RegistryError::NotPending));
    assert_eq!(m.registry.claim_badge(TEMP, t), Ok(badge));
    assert_eq!(m.new_investor_dashboard(9, 800), Err(RegistryError::Unauthorized));
    assert_eq!(m.new_investor_dashboard(ADMIN, 800), Ok(800));
    assert_eq!(m.investor_dashboard_address, Some(800));
    assert_eq!(m.view_component_address(), None);
}

#[test]
fn farmers_market_lists_funds_and_tokens_by_name() {
    let mut m = market();
    assert_eq!(m.insert_debt_fund("grain".to_string(), 10), Ok(()));
    assert_eq!(m.insert_debt_fund("grain".to_string(), 11), Err(RegistryError::AlreadyExists));
    assert_eq!(m.insert_debt_fund("corn".to_string(), 12), Ok(()));
    assert_eq!(m.get_debt_fund(&"corn".to_string()), Ok(12));
    assert_eq!(m.get_debt_fund(&"rice".to_string()), Err(RegistryError::NotFound));
    assert_eq!(m.debt_fund_list(), vec![("grain".to_string(), 10), ("corn".to_string(), 12)]);
    assert_eq!(m.insert_tracking_tokens(50, "grain".to_string()), Ok(()));
    assert_eq!(m.insert_tracking_tokens(50, "corn".to_string()), Err(RegistryError::AlreadyExists));
    assert_eq!(m.get_tracking_tokens_mapping(50), Ok("grain".to_string()));
    assert_eq!(m.get_tracking_tokens_mapping(51), Err(RegistryError::NotFound));
}

#[test]
fn farmers_market_lists_and_returns_loan_requests() {
    let mut m = market();
    m.registry.deposit_loan_requests(BORROWER, 7, REQUEST, 20).unwrap();
    m.registry.deposit_loan_requests(BORROWER, 8, REQUEST, 21).unwrap();
    m.registry.deposit_loan_requests(BORROWER, 7, REQUEST, 22).unwrap();
    assert_eq!(m.loan_request_list(), vec![(7, vec![20, 22]), (8, vec![21])]);
    assert_eq!(m.registry.retrieve_loan_request_nft(BORROWER, 7, 20), Ok(20));
    assert_eq!(m.return_loan_request_nft(99, 7, 20), Err(RegistryError::WrongBadge));
    assert_eq!(m.return_loan_request_nft(REQUEST, 9, 20), Err(RegistryError::NoLoanRequests));
    assert_eq!(m.return_loan_request_nft(REQUEST, 7, 20), Ok(()));
    assert_eq!(m.registry.view_loan_requests(7), Ok(vec![22, 20]));
}

fn units(n: i64) -> Decimal {
    Decimal::from_attos(n as i128 * 1_000_000_000_000_000_000)
}

#[test]
fn investor_dashboard_routes_liquidity_to_the_listed_debt_fund() {
    const ASSET: u64 = 60;
    const TRACKING: u64 = 61;
    let mut m = market();
    assert_eq!(m.insert_debt_fund("grain".to_string(), 10), Ok(()));
    assert_eq!(m.insert_tracking_tokens(TRACKING, "grain".to_string()), Ok(()));
    let mut f = DebtFund::new(7, 8, ASSET, units(100), 9, TRACKING, 4, 6, None).unwrap();
    let investor = InvestorDashboard::new(31);
    let grain = "grain".to_string();
    assert_eq!(investor.retrieve_debt_funds_list(&m), vec![("grain".to_string(), 10)]);
    assert_eq!(
        investor.supply_liquidity(&m, &mut f, 11, &grain, ASSET, units(50)),
        Err(InvestorDashboardError::WrongFund)
    );
    assert_eq!(
        investor.supply_liquidity(&m, &mut f, 10, &"rice".to_string(), ASSET, units(50)),
        Err(InvestorDashboardError::Registry(RegistryError::NotFound))
    );
    assert_eq!(f.vault, units(100));
    assert_eq!(
        investor.supply_liquidity(&m, &mut f, 10, &grain, 99, units(50)),
        Err(InvestorDashboardError::DebtFund(DebtFundError::WrongToken))
    );
    assert_eq!(investor.supply_liquidity(&m, &mut f, 10, &grain, ASSET, units(50)), Ok(units(50)));
    assert_eq!(f.vault, units(150));
    assert_eq!(
        investor.remove_liquidity(&m, &mut f, 10, 99, units(75)),
        Err(InvestorDashboardError::Registry(RegistryError::NotFound))
    );
    assert_eq!(investor.remove_liquidity(&m, &mut f, 10, TRACKING, units(75)), Ok(units(75)));
    assert_eq!(f.vault, units(75));
    assert_eq!(investor.claim_fees(&m, &mut f, 12, TRACKING, units(10)), Err(InvestorDashboardError::WrongFund));
    assert_eq!(investor.claim_fees(&m, &mut f, 10, TRACKING, units(10)), Ok(vec![]));
}
