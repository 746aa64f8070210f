use yield_farming::decimal::Decimal;
use yield_farming::investment_pool::{InvestmentPool, PoolError};
use yield_farming::price_oracle::PriceOracle;

fn d(units: i64) -> Decimal {
    Decimal::from_attos(units as i128 * 1_000_000_000_000_000_000)
}

fn pool() -> InvestmentPool {
    InvestmentPool::instantiate_pool(d(2), 10, 11, 1, "Hedge".to_string(), "HDG".to_string(), 20, 21)
}

#[test]
fn investment_pool_starts_empty() {
    let p = pool();
    assert_eq!(p.amount_pool_token(), d(0));
    assert_eq!(p.pool_vaults.len(), 0);
}

#[test]
fn investment_pool_first_funding_is_refused() {
    let mut p = pool();
    let mut o = PriceOracle::new();
    o.set_price(5, d(3));
    assert_eq!(p.fund_pool(5, d(0), &o), Err(PoolError::EmptyBucket));
    assert_eq!(p.fund_pool(5, d(10), &o), Err(PoolError::NotFunded));
    assert_eq!(p.pool_token_price_marketcap(&o), Err(PoolError::NotFunded));
    assert_eq!(p.get_asset_price(&o, 5), Ok(d(3)));
    assert_eq!(p.get_asset_price(&o, 6), Err(PoolError::PriceUnavailable));
}

#[test]
fn investment_pool_funding_mints_by_value_share() {
    let mut p = pool();
    let mut o = PriceOracle::new();
    o.set_price(5, d(3));
    o.set_price(6, d(1));
    p.pool_vaults.set(5, d(10));
    p.pool_token_supply = d(30);
    assert_eq!(p.pool_token_price_marketcap(&o), Ok((d(1), d(30))));
    assert_eq!(p.fund_pool(6, d(15), &o), Ok(d(15)));
    assert_eq!(p.pool_token_supply, d(45));
    assert_eq!(p.pool_vaults.get(6), Some(d(15)));
    assert_eq!(p.get_market_cap(&o), Ok(d(45)));
}

#[test]
fn investment_pool_trade_checks() {
    let mut p = pool();
    p.pool_vaults.set(5, d(10));
    assert_eq!(p.trade_assets(5, d(0), 6, true, d(1)), Err(PoolError::InvalidAmount));
    assert_eq!(p.trade_assets(7, d(1), 6, true, d(1)), Err(PoolError::UnknownAsset));
    assert_eq!(p.trade_assets(5, d(11), 6, true, d(1)), Err(PoolError::InsufficientAsset));
    assert_eq!(p.trade_assets(5, d(4), 6, false, d(1)), Err(PoolError::NoExchangePool));
    assert_eq!(p.trade_assets(5, d(4), 6, true, d(12)), Ok(()));
    assert_eq!(p.pool_vaults.get(5), Some(d(6)));
    assert_eq!(p.pool_vaults.get(6), Some(d(12)));
}
