use yield_farming::decimal::Decimal;
use yield_farming::ledger::Ledger;
use yield_farming::oracle_dex::{swap_amount, DexError, OracleDex};
use yield_farming::price_oracle::PriceOracle;

fn d(units: i64) -> Decimal {
    Decimal::from_attos(units as i128 * 1_000_000_000_000_000_000)
}

#[test]
fn oracle_dex_swaps_at_oracle_prices() {
    let mut o = PriceOracle::new();
    o.insert_resource(1);
    o.set_price(2, d(4));
    let mut dex = OracleDex::new();
    dex.create_pool(1);
    dex.create_pool(2);
    assert_eq!(dex.add_liquidity(3, d(1)), Err(DexError::UnknownPool));
    dex.add_liquidity(2, d(10)).unwrap();
    assert_eq!(swap_amount(d(8), d(1), d(4)), d(2));
    assert_eq!(dex.swap(&o, 1, d(8), 2), Ok(d(2)));
    assert_eq!(dex.pools.get(1), Some(d(8)));
    assert_eq!(dex.pools.get(2), Some(d(8)));
    assert_eq!(dex.swap(&o, 1, d(100), 2), Err(DexError::InsufficientLiquidity));
    dex.create_pool(5);
    assert_eq!(dex.swap(&o, 1, d(1), 5), Err(DexError::UnknownPrice));
    assert_eq!(dex.remove_liquidity(2, d(9)), Err(DexError::InsufficientLiquidity));
    assert_eq!(dex.remove_liquidity(2, d(3)), Ok(d(3)));
}

#[test]
fn ledger_and_oracle_keep_one_entry_per_id() {
    let mut l = Ledger::new();
    l.set(4, d(1));
    l.set(4, d(2));
    assert_eq!(l.len(), 1);
    assert_eq!(l.get(4), Some(d(2)));
    assert!(l.deposit(4, d(3)));
    assert_eq!(l.get(4), Some(d(5)));
    assert!(!l.deposit(5, d(3)));
    assert!(!l.contains(5));
    let mut o = PriceOracle::new();
    assert_eq!(o.get_price(1), None);
    o.insert_resource(1);
    assert_eq!(o.get_price(1), Some(d(1)));
}
