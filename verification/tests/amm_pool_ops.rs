use yield_farming::amm_pool::{Pool, PoolError};
use yield_farming::decimal::Decimal;

fn d(units: i64) -> Decimal {
    Decimal::from_attos(units as i128 * 1_000_000_000_000_000_000)
}

#[test]
fn amm_swap_follows_constant_product() {
    let (mut p, lp) = Pool::new(1, 2, 3, d(100), d(100));
    assert_eq!(p.get_pair(), (1, 2));
    assert_eq!(lp, d(100));
    let out = p.swap(1, d(10)).unwrap();
    assert_eq!(out, Decimal::from_attos(9_090_909_090_909_090_909));
    assert_eq!(p.x, d(110));
    assert_eq!(p.y, Decimal::from_attos(90_909_090_909_090_909_091));
    assert_eq!(p.swap(9, d(1)), Err(PoolError::WrongToken));
    let back = p.swap(2, d(10)).unwrap();
    assert!(back.lt(d(11)));
}

#[test]
fn amm_liquidity_moves_in_proportion() {
    let (mut p, _) = Pool::new(1, 2, 3, d(100), d(200));
    let (minted, remainder, remainder_in_x) = p.add_liquidity(d(10), d(40));
    assert_eq!(minted, d(10));
    assert_eq!(remainder, d(20));
    assert!(!remainder_in_x);
    assert_eq!(p.x, d(110));
    assert_eq!(p.y, d(220));
    assert_eq!(p.lp_supply, d(110));
    assert_eq!(p.remove_liquidity(9, d(1)), Err(PoolError::InvalidLpTokens));
    let (ox, oy) = p.remove_liquidity(3, d(55)).unwrap();
    assert_eq!(ox, d(55));
    assert_eq!(oy, d(110));
    assert_eq!(p.lp_supply, d(55));
}
