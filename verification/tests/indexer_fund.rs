use yield_farming::decimal::Decimal;
use yield_farming::indexer::{Indexer, IndexerError, LoanDue};
use yield_farming::oracle_dex::{DexError, OracleDex};
use yield_farming::price_oracle::PriceOracle;

fn d(units: i64) -> Decimal {
    Decimal::from_attos(units as i128 * 1_000_000_000_000_000_000)
}

const XRD: u64 = 1;
const BTC: u64 = 2;
const INDEX: u64 = 9;
const PROMISE: u64 = 8;

fn indexer() -> Indexer {
    let mut ix = Indexer::new(XRD, INDEX, PROMISE);
    ix.create_index_pool(XRD);
    ix.create_index_pool(BTC);
    ix.oci_address(100);
    ix
}

#[test]
fn indexer_deposit_splits_evenly() {
    let mut empty = Indexer::new(XRD, INDEX, PROMISE);
    assert_eq!(empty.deposit(d(10), &vec![]), Err(IndexerError::NoIndexPools));
    let mut ix = indexer();
    assert_eq!(ix.deposit(d(100), &vec![d(0)]), Err(IndexerError::OutcomeMismatch));
    let (change, minted) = ix.deposit(d(100), &vec![d(0), d(5)]).unwrap();
    assert_eq!(change, d(0));
    assert_eq!(minted, d(50));
    assert_eq!(ix.index_token_counter, d(50));
    assert_eq!(ix.pools.get(XRD), Some(d(50)));
    assert_eq!(ix.pools.get(BTC), Some(d(5)));
    assert_eq!(ix.balance(XRD), Some(d(50)));
    assert_eq!(ix.balance(77), None);
}

#[test]
fn indexer_deposit_keeps_change_of_uneven_split() {
    let mut ix = Indexer::new(XRD, INDEX, PROMISE);
    ix.create_index_pool(XRD);
    ix.create_index_pool(3);
    ix.create_index_pool(4);
    ix.oci_address(100);
    let (change, minted) = ix.deposit(Decimal::from_attos(10), &vec![d(0), d(1), d(1)]).unwrap();
    assert_eq!(minted, Decimal::from_attos(3));
    assert_eq!(change, Decimal::from_attos(1));
}

#[test]
fn indexer_deposit_needs_exchange_for_other_tokens() {
    let mut ix = Indexer::new(XRD, INDEX, PROMISE);
    ix.create_index_pool(BTC);
    assert_eq!(ix.deposit(d(10), &vec![d(1)]), Err(IndexerError::NoExchange));
}

#[test]
fn indexer_withdraw_returns_share_of_each_pool() {
    let mut ix = indexer();
    ix.deposit(d(100), &vec![d(0), d(5)]).unwrap();
    assert_eq!(ix.withdraw(XRD, d(25)), Err(IndexerError::WrongToken));
    let takes = ix.withdraw(INDEX, d(25)).unwrap();
    assert_eq!(takes, vec![d(25), Decimal::new(25, 1)]);
    assert_eq!(ix.index_token_counter, d(25));
    assert_eq!(ix.pools.get(BTC), Some(Decimal::new(25, 1)));
}

#[test]
fn indexer_flash_loan_due_is_four_percent_more() {
    let mut ix = indexer();
    ix.deposit(d(100), &vec![d(0), d(5)]).unwrap();
    assert_eq!(ix.take_loan(d(6), BTC), Err(IndexerError::InsufficientLiquidity));
    assert_eq!(ix.take_loan(d(1), 77), Err(IndexerError::NoSuchPool));
    let (loan, terms) = ix.take_loan(d(2), BTC).unwrap();
    assert_eq!(loan, d(2));
    assert_eq!(terms.amount_due, Decimal::new(208, 2));
    assert_eq!(ix.pools.get(BTC), Some(d(3)));
    assert_eq!(ix.repay_loan(d(2), BTC, PROMISE, terms), Err(IndexerError::InsufficientRepayment));
    assert_eq!(ix.repay_loan(d(3), BTC, 7, terms), Err(IndexerError::WrongLoanTerms));
    let change = ix.repay_loan(d(3), BTC, PROMISE, terms).unwrap();
    assert_eq!(change, Decimal::new(92, 2));
    assert_eq!(ix.pools.get(BTC), Some(Decimal::new(508, 2)));
    let bad = LoanDue { amount_due: d(-1) };
    assert_eq!(ix.repay_loan(d(3), BTC, PROMISE, bad), Err(IndexerError::InvalidAmount));
}

#[test]
fn indexer_opportunity_and_arbitrage() {
    let mut ix = indexer();
    assert_eq!(ix.opportunity(d(10)), Ok((d(10), d(1))));
    ix.deposit(d(100), &vec![d(0), d(5)]).unwrap();
    assert_eq!(ix.arb_oci_radex(BTC, d(6)), Err(IndexerError::NoExchange));
    ix.radex_address(101);
    assert_eq!(ix.arb_oci_radex(BTC, d(6)), Ok(d(1)));
    assert_eq!(ix.pools.get(BTC), Some(d(6)));
    let fresh = Indexer::new(XRD, INDEX, PROMISE);
    assert_eq!(fresh.opportunity(d(10)), Err(IndexerError::NoExchange));
}

#[test]
fn indexer_reads_oracle_prices() {
    let mut ix = indexer();
    let mut oracle = PriceOracle::new();
    oracle.set_price(BTC, d(30000));
    assert_eq!(ix.get_price_oracle1(&oracle, BTC), Err(IndexerError::NoOracle));
    ix.oracle1_address(55);
    assert_eq!(ix.get_price_oracle1(&oracle, BTC), Ok(d(30000)));
    assert_eq!(ix.get_price_oracle1(&oracle, 3), Err(IndexerError::UnknownPrice));
    ix.oracle2_address(56);
    assert_eq!(ix.get_price_oracle2(&oracle, BTC), Ok(d(30000)));
}

fn exchange(xrd: i64, btc: i64) -> OracleDex {
    let mut dex = OracleDex::new();
    dex.create_pool(XRD);
    dex.create_pool(BTC);
    dex.add_liquidity(XRD, d(xrd)).unwrap();
    dex.add_liquidity(BTC, d(btc)).unwrap();
    dex
}

fn prices(btc: i64) -> PriceOracle {
    let mut o = PriceOracle::new();
    o.insert_resource(XRD);
    o.set_price(BTC, d(btc));
    o
}

#[test]
fn indexer_moves_through_exchanges() {
    let mut ix = indexer();
    ix.radex_address(200);
    let o1 = prices(10);
    let o2 = prices(8);
    let mut oci = exchange(0, 100);
    let mut radex = exchange(1000, 100);
    assert_eq!(ix.deposit_through_exchange(d(100), &mut oci, &o1), Ok((d(0), d(50))));
    assert_eq!(ix.pools.get(XRD), Some(d(50)));
    assert_eq!(ix.pools.get(BTC), Some(d(5)));
    assert_eq!(oci.pools.get(XRD), Some(d(50)));
    assert_eq!(oci.pools.get(BTC), Some(d(95)));
    assert_eq!(ix.withdraw_through_exchange(XRD, d(25), &mut oci, &o1), Err(IndexerError::WrongToken));
    assert_eq!(ix.withdraw_through_exchange(INDEX, d(60), &mut oci, &o1), Err(IndexerError::InsufficientLiquidity));
    assert_eq!(ix.withdraw_through_exchange(INDEX, d(25), &mut oci, &o1), Ok(d(50)));
    assert_eq!(ix.pools.get(BTC), Some(Decimal::new(25, 1)));
    assert_eq!(ix.index_token_counter, d(25));
    assert_eq!(oci.pools.get(XRD), Some(d(25)));
    // 2.5 BTC sell for 25 XRD at 10 and buy back 3.125 BTC at 8.
    assert_eq!(ix.arb_through_exchanges(BTC, &mut oci, &mut radex, &o1, &o2), Ok(Decimal::new(625, 3)));
    assert_eq!(ix.pools.get(BTC), Some(Decimal::new(3125, 3)));
    assert_eq!(oci.pools.get(XRD), Some(d(0)));
    assert_eq!(radex.pools.get(BTC), Some(Decimal::new(96875, 3)));
}

#[test]
fn indexer_refused_swap_changes_nothing() {
    let mut ix = indexer();
    let o1 = prices(10);
    let mut dex = OracleDex::new();
    dex.create_pool(XRD);
    assert_eq!(
        ix.deposit_through_exchange(d(100), &mut dex, &o1),
        Err(IndexerError::Exchange(DexError::UnknownPool))
    );
    assert_eq!(ix.index_token_counter, d(0));
    assert_eq!(ix.pools.get(XRD), Some(d(0)));
    assert_eq!(dex.pools.get(XRD), Some(d(0)));
}
