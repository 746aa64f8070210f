use yield_farming::decimal::Decimal;
use yield_farming::index_fund::{IndexFund, IndexFundError};
use yield_farming::price_oracle::PriceOracle;

fn d(units: i64) -> Decimal {
    Decimal::from_attos(units as i128 * 1_000_000_000_000_000_000)
}

const ADMIN: u64 = 1;
const TRADER: u64 = 2;
const FUND_TOKEN: u64 = 3;
const T1: u64 = 10;
const T2: u64 = 11;

fn oracle() -> PriceOracle {
    let mut o = PriceOracle::new();
    o.set_price(T1, d(2));
    o.set_price(T2, d(4));
    o
}

fn fund(o: &mut PriceOracle) -> IndexFund {
    IndexFund::new(
        "Basket".to_string(),
        "BSK".to_string(),
        Decimal::new(1, 2),
        d(1),
        &vec![(T1, Decimal::new(5, 1)), (T2, Decimal::new(5, 1))],
        ADMIN,
        TRADER,
        FUND_TOKEN,
        o,
    )
    .unwrap()
}

#[test]
fn index_fund_new_validates_fee_price_and_weights() {
    let mut o = oracle();
    let w = vec![(T1, Decimal::new(5, 1)), (T2, Decimal::new(5, 1))];
    let bad_fee = IndexFund::new("f".to_string(), "F".to_string(), d(101), d(1), &w, 1, 2, 3, &mut o);
    assert_eq!(bad_fee.err(), Some(IndexFundError::InvalidFee));
    let bad_price = IndexFund::new("f".to_string(), "F".to_string(), d(1), d(0), &w, 1, 2, 3, &mut o);
    assert_eq!(bad_price.err(), Some(IndexFundError::InvalidSharePrice));
    let short = vec![(T1, Decimal::new(5, 1)), (T2, Decimal::new(4, 1))];
    let bad_weights = IndexFund::new("f".to_string(), "F".to_string(), d(1), d(1), &short, 1, 2, 3, &mut o);
    assert_eq!(bad_weights.err(), Some(IndexFundError::InvalidWeights));
    assert_eq!(o.get_price(3), None);
    let close = vec![(T1, Decimal::new(5, 1)), (T2, Decimal::new(46, 2))];
    let ok = IndexFund::new("f".to_string(), "F".to_string(), d(1), d(1), &close, 1, 2, 3, &mut o);
    assert!(ok.is_ok());
    assert_eq!(o.get_price(3), Some(d(1)));
}

#[test]
fn index_fund_issue_redeem_and_fees() {
    let mut o = oracle();
    let mut f = fund(&mut o);
    assert_eq!(f.issue_tokens(&vec![(99, d(1))], &o), Err(IndexFundError::NotInFund));
    assert_eq!(f.issue_tokens(&vec![(T1, d(10))], &o), Ok(d(20)));
    assert_eq!(f.issue_tokens(&vec![(T2, d(5))], &o), Ok(d(10)));
    assert_eq!(f.fund_token_supply, d(30));
    assert_eq!(f.redeem(T1, d(3), &o), Err(IndexFundError::WrongToken));
    let out = f.redeem(FUND_TOKEN, d(3), &o).unwrap();
    assert_eq!(out, vec![Decimal::new(15, 1), Decimal::from_attos(1_621_621_621_621_621_620)]);
    assert_eq!(f.fund_vaults.get(T1), Some(Decimal::new(85, 1)));
    assert_eq!(f.fund_vaults.get(T2), Some(Decimal::from_attos(3_378_378_378_378_378_380)));
    assert_eq!(f.fund_token_supply, d(27));
    let weights = f.token_weights(&o).unwrap();
    assert_eq!(weights.len(), 2);
    let minted = f.calculate_fees(&o).unwrap();
    assert_eq!(f.fee_vault, minted);
}

#[test]
fn index_fund_admin_actions() {
    let mut o = oracle();
    let mut f = fund(&mut o);
    assert_eq!(f.integrate_dex(9, 50), Err(IndexFundError::Unauthorized));
    assert_eq!(f.buy(1, 1), Err(IndexFundError::NoExchange));
    assert_eq!(f.integrate_dex(ADMIN, 50), Ok(()));
    assert_eq!(f.buy(1, 1), Ok(50));
    assert_eq!(f.buy(1, 2), Err(IndexFundError::WrongToken));
    assert_eq!(f.sell(FUND_TOKEN), Ok(50));
    assert_eq!(f.create_trader_badge(ADMIN), Ok(TRADER));
    f.issue_tokens(&vec![(T1, d(10))], &o).unwrap();
    assert_eq!(f.swap(ADMIN, T1, d(11), T2, d(1)), Err(IndexFundError::InsufficientLiquidity));
    assert_eq!(f.swap(ADMIN, T1, d(4), T2, d(2)), Ok(()));
    assert_eq!(f.fund_vaults.get(T1), Some(d(6)));
    assert_eq!(f.fund_vaults.get(T2), Some(d(2)));
    f.add_token(&vec![T1, 12]);
    assert_eq!(f.fund_vaults.get(T1), Some(d(6)));
    assert_eq!(f.fund_vaults.get(12), Some(d(0)));
    assert_eq!(f.add_liquidity(ADMIN, T1, d(1), T2, d(1), 13, d(3)), Err(IndexFundError::NoLending));
    f.integrate_lending(ADMIN, 60).unwrap();
    assert_eq!(f.add_liquidity(ADMIN, T1, d(1), T2, d(1), 13, d(3)), Ok(()));
    assert_eq!(f.fund_vaults.get(13), Some(d(3)));
    assert_eq!(f.remove_liquidity(ADMIN, 13, d(3), T1, d(1), T2, d(1)), Ok(()));
    assert_eq!(f.fund_vaults.get(T1), Some(d(6)));
    assert_eq!(f.claim_fees(ADMIN, d(1)), Err(IndexFundError::NotInFund));
}

#[test]
fn index_fund_lending_calls_check_and_move_tokens() {
    let mut o = oracle();
    let mut f = fund(&mut o);
    f.issue_tokens(&vec![(T1, d(10))], &o).unwrap();
    f.issue_tokens(&vec![(T2, d(10))], &o).unwrap();
    assert_eq!(f.deposit_supply(ADMIN, T1, d(1), d(1)), Err(IndexFundError::NoLending));
    f.integrate_lending(ADMIN, 50).unwrap();
    assert_eq!(f.deposit_supply(9, T1, d(1), d(1)), Err(IndexFundError::Unauthorized));
    assert_eq!(f.deposit_supply(ADMIN, T1, d(1), d(1)), Err(IndexFundError::NotRegistered));
    assert_eq!(f.flash_borrow(ADMIN, T1, d(1), d(1)), Err(IndexFundError::NotRegistered));
    assert_eq!(f.register_degenfi_user(9, 60, 61, d(0)), Err(IndexFundError::Unauthorized));
    assert_eq!(f.register_degenfi_user(ADMIN, 60, 61, d(0)), Ok(()));
    assert_eq!(f.degenfi_badge, Some(60));
    assert_eq!(f.new_lending_pool(ADMIN, 99, d(1), d(1)), Err(IndexFundError::NotInFund));
    assert_eq!(f.new_lending_pool(ADMIN, T1, d(11), d(1)), Err(IndexFundError::InsufficientLiquidity));
    assert_eq!(f.new_lending_pool(ADMIN, T1, d(4), d(4)), Ok(()));
    assert_eq!(f.fund_vaults.get(T1), Some(d(6)));
    assert_eq!(f.degen_tokens, d(4));
    assert_eq!(f.deposit_collateral(ADMIN, T2, d(1), d(0)), Ok(()));
    assert_eq!(f.deposit_additional_collateral(ADMIN, 80, T2, d(1), d(0)), Ok(()));
    assert_eq!(f.fund_vaults.get(T2), Some(d(8)));
    assert_eq!(f.borrow(ADMIN, 99, 70, d(3), 80, d(1)), Err(IndexFundError::NotInFund));
    assert_eq!(f.borrow(ADMIN, T2, 70, d(3), 80, d(1)), Ok(()));
    assert_eq!(f.view_loans(), Some(80));
    assert_eq!(f.borrow_vaults.get(70), Some(d(3)));
    assert_eq!(f.borrow(ADMIN, T2, 70, d(5), 81, d(0)), Ok(()));
    assert_eq!(f.view_loans(), Some(80));
    assert_eq!(f.borrow_vaults.get(70), Some(d(5)));
    assert_eq!(f.borrow_additional(ADMIN, 80, T1, 71, d(2), d(0)), Ok(()));
    assert_eq!(f.borrow_vaults.get(71), Some(d(2)));
    assert_eq!(f.repay(ADMIN, 81, T1, d(1), T2, d(2), d(0)), Err(IndexFundError::UnknownLoan));
    assert_eq!(f.repay(ADMIN, 80, T1, d(7), T2, d(2), d(0)), Err(IndexFundError::InsufficientLiquidity));
    assert_eq!(f.repay(ADMIN, 80, T1, d(1), 99, d(2), d(0)), Err(IndexFundError::NotInFund));
    assert_eq!(f.repay(ADMIN, 80, T1, d(1), T2, d(2), d(0)), Ok(()));
    assert_eq!(f.fund_vaults.get(T1), Some(d(5)));
    assert_eq!(f.fund_vaults.get(T2), Some(d(10)));
    assert_eq!(f.redeem_collateral(ADMIN, 99, d(1)), Err(IndexFundError::NotInFund));
    assert_eq!(f.redeem_collateral(ADMIN, T2, d(3)), Ok(()));
    assert_eq!(f.fund_vaults.get(T2), Some(d(13)));
    assert_eq!(f.flash_borrow(ADMIN, T1, d(100), d(2)), Ok(()));
    assert_eq!(f.flash_repay(ADMIN, d(1)), Ok(()));
    assert_eq!(f.degen_tokens, d(8));
}
