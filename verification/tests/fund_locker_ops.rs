use yield_farming::decimal::Decimal;
use yield_farming::fund_locker::{FundLocker, FundLockerError};
use yield_farming::ledger::Ledger;
use yield_farming::main_dashboard::MainDashboard;
use yield_farming::pool_delegate_dashboard::{PoolDelegateDashboard, PoolDelegateError};
use yield_farming::price_oracle::PriceOracle;

fn d(units: i64) -> Decimal {
    Decimal::from_attos(units as i128 * 1_000_000_000_000_000_000)
}

const BTC: u64 = 2;
const ETH: u64 = 3;
const LEO: u64 = 4;
const FUND: u64 = 9;

fn locker() -> FundLocker {
    FundLocker::new(&vec![(BTC, Decimal::new(6, 1)), (ETH, Decimal::new(4, 1))], FUND, d(1))
}

#[test]
fn fund_locker_totals_and_weights() {
    let l = locker();
    assert_eq!(l.view_weights(), vec![(BTC, Decimal::new(6, 1)), (ETH, Decimal::new(4, 1))]);
    assert_eq!(l.get_total_token_amount(&vec![(BTC, d(2)), (ETH, d(3))]), Ok(d(5)));
    let big = Decimal::from_attos(i128::MAX);
    assert_eq!(l.get_total_token_amount(&vec![(BTC, big), (ETH, d(1))]), Err(FundLockerError::Overflow));
}

#[test]
fn fund_locker_remove_token_needs_weights_summing_to_zero() {
    let mut l = locker();
    let mut w = Ledger::new();
    w.set(ETH, d(1));
    assert_eq!(l.remove_token(&w, &vec![BTC]), Err(FundLockerError::WeightsNotWhole));
    assert_eq!(l.view_weights().len(), 2);
    let mut zero = Ledger::new();
    zero.set(ETH, d(0));
    zero.set(LEO, d(0));
    assert_eq!(l.remove_token(&zero, &vec![BTC]), Ok(()));
    assert_eq!(l.view_weights(), vec![(ETH, d(0))]);
}

#[test]
fn fund_locker_mints_by_weight_rounded_up() {
    let mut l = locker();
    let mut oracle = PriceOracle::new();
    oracle.set_price(BTC, d(3));
    assert_eq!(
        l.issue_tokens(&vec![(BTC, d(1)), (ETH, d(1))], &mut oracle),
        Err(FundLockerError::NoPrice)
    );
    oracle.set_price(ETH, Decimal::new(5, 1));
    assert_eq!(l.issue_tokens(&vec![(LEO, d(1))], &mut oracle), Err(FundLockerError::NoPrice));
    // Value 3 + 0.5 = 3.5: ETH mints 3.5 * 0.4 = 1.4 -> 2, BTC mints 3.5 * 0.6 = 2.1 -> 3.
    assert_eq!(l.issue_tokens(&vec![(BTC, d(1)), (ETH, d(1))], &mut oracle), Ok(d(5)));
    assert_eq!(l.fund_vaults.get(BTC), Some(d(1)));
    assert_eq!(l.fund_vaults.get(ETH), Some(d(1)));
    assert_eq!(l.fund_token_supply, d(5));
    assert_eq!(oracle.get_price(FUND), Some(d(1)));
    oracle.set_price(LEO, d(1));
    assert_eq!(l.issue_tokens(&vec![(LEO, d(1))], &mut oracle), Err(FundLockerError::NoWeight));
    assert_eq!(l.fund_token_supply, d(5));
}

#[test]
fn pool_delegate_keeps_one_pool_per_name_and_token() {
    let mut dash = PoolDelegateDashboard::new(1, 2, 3, 4);
    let name = "grain".to_string();
    assert!(!dash.pool_exists(&name, BTC));
    assert_eq!(dash.assert_pool_exists(&name, BTC), Err(PoolDelegateError::NoPool));
    assert_eq!(dash.assert_pool_doesnt_exists(&name, BTC), Ok(()));
    assert_eq!(dash.new_lending_pool(name.clone(), BTC, 70), Ok(70));
    assert!(dash.pool_exists(&name, BTC));
    assert!(!dash.pool_exists(&name, ETH));
    assert_eq!(dash.assert_pool_exists(&name, BTC), Ok(()));
    assert_eq!(dash.assert_pool_doesnt_exists(&name, BTC), Err(PoolDelegateError::PoolExists));
    assert_eq!(dash.new_lending_pool(name.clone(), BTC, 71), Err(PoolDelegateError::PoolExists));
}

#[test]
fn main_dashboard_issues_empty_asset_manager_badges() {
    let dash = MainDashboard::new(12);
    let (resource, id, user) = dash.create_am_badge(77);
    assert_eq!((resource, id), (12, 77));
    assert!(user.funds_managed.is_empty() && user.funds_invested.is_empty());
}
