use yield_farming::debt_fund::{DebtFund, DebtFundError};
use yield_farming::decimal::Decimal;

fn d(units: i64) -> Decimal {
    Decimal::from_attos(units as i128 * 1_000_000_000_000_000_000)
}

const ASSET: u64 = 1;
const BADGE: u64 = 2;
const TRACKING: u64 = 3;
const MANAGER: u64 = 4;

fn fund() -> DebtFund {
    DebtFund::new(MANAGER, 40, ASSET, d(100), BADGE, TRACKING, 5, 6, Some(7)).unwrap()
}

#[test]
fn debt_fund_liquidity_follows_tracking_tokens() {
    assert_eq!(
        DebtFund::new(MANAGER, 40, ASSET, d(0), BADGE, TRACKING, 5, 6, None).err(),
        Some(DebtFundError::EmptyBucket)
    );
    let mut f = fund();
    assert_eq!(f.tracking_supply, d(100));
    assert_eq!(f.supply_liquidity(9, d(50)), Err(DebtFundError::WrongToken));
    assert_eq!(f.supply_liquidity(ASSET, d(0)), Err(DebtFundError::EmptyBucket));
    assert_eq!(f.supply_liquidity(ASSET, d(50)), Ok(d(50)));
    assert_eq!(f.vault, d(150));
    assert_eq!(f.remove_liquidity(ASSET, d(75)), Err(DebtFundError::WrongToken));
    assert_eq!(f.remove_liquidity(TRACKING, d(300)), Err(DebtFundError::InsufficientLiquidity));
    assert_eq!(f.remove_liquidity(TRACKING, d(75)), Ok(d(75)));
    assert_eq!(f.vault, d(75));
    assert_eq!(f.tracking_supply, d(75));
}

#[test]
fn debt_fund_opens_and_funds_a_locker() {
    let mut f = fund();
    let open = |f: &mut DebtFund, term: u64| {
        f.instantiate_funding_locker(
            MANAGER, 40, 77, d(1000), ASSET, 8, Decimal::new(5, 1), Decimal::new(1, 1), d(500),
            d(100), term, Decimal::new(1, 2), 900,
        )
    };
    assert_eq!(open(&mut f, 2).err(), Some(DebtFundError::InvalidTerm));
    let (id, loan) = open(&mut f, 3).unwrap();
    assert_eq!(id, 1);
    assert_eq!(loan.payments_remaining, 3);
    assert_eq!(loan.origination_fee_charged, d(10));
    assert_eq!(loan.remaining_balance, Decimal::from_attos(1_000_010_000_000_000_000_000));
    assert_eq!(f.fund_loan(BADGE, d(200), id), Err(DebtFundError::InsufficientLiquidity));
    assert_eq!(f.fund_loan(BADGE, d(60), 99), Err(DebtFundError::NoLocker));
    assert_eq!(f.fund_loan(9, d(60), id), Err(DebtFundError::Unauthorized));
    assert_eq!(f.fund_loan(BADGE, d(60), id), Ok(900));
    assert_eq!(f.vault, d(40));
    assert_eq!(f.locker_for_admin(BADGE, id), Ok(900));
    assert_eq!(f.transfer_liquidity(BADGE, 99, ASSET, d(5)), Ok(false));
    assert_eq!(f.transfer_liquidity(BADGE, id, ASSET, d(5)), Err(DebtFundError::NoAccessBadge));
    f.deposit_access_badge(3);
    assert_eq!(f.transfer_liquidity(BADGE, id, ASSET, d(5)), Ok(true));
    assert_eq!(f.vault, d(45));
}

#[test]
fn debt_fund_fees_are_shared_by_tracking_tokens() {
    let mut f = fund();
    let (id, _) = f
        .instantiate_funding_locker(
            MANAGER, 40, 77, d(1000), ASSET, 8, Decimal::new(5, 1), Decimal::new(1, 1), d(500),
            d(100), 1, Decimal::new(1, 2), 900,
        )
        .unwrap();
    assert_eq!(f.transfer_fees(BADGE, id, ASSET, d(10)), Ok(()));
    assert_eq!(f.transfer_fees(BADGE, id, ASSET, d(10)), Ok(()));
    assert_eq!(f.fee_vaults.get(ASSET), Some(d(20)));
    assert_eq!(f.claim_fees(ASSET, d(25)), Err(DebtFundError::WrongToken));
    assert_eq!(f.claim_fees(TRACKING, d(25)), Ok(vec![d(5)]));
    assert_eq!(f.fee_vaults.get(ASSET), Some(d(15)));
}
