use yield_farming::auction::{Auction, AuctionError};
use yield_farming::decimal::Decimal;

fn d(units: i64) -> Decimal {
    Decimal::from_attos(units as i128 * 1_000_000_000_000_000_000)
}

#[test]
fn auction_fills_lowest_price_first() {
    let mut a = Auction::new();
    a.create_bid(1, d(10), d(2)).unwrap();
    a.create_bid(2, d(10), d(1)).unwrap();
    assert_eq!(a.chain[0].id, 2);
    let (bought, left) = a.auction(d(15));
    assert_eq!(bought, Decimal::new(125, 1));
    assert_eq!(left, d(0));
    assert_eq!(a.close_bid(2), Ok((d(0), d(10))));
    assert_eq!(a.close_bid(1), Ok((Decimal::new(75, 1), d(5))));
    assert_eq!(a.close_bid(1), Err(AuctionError::UnknownReceipt));
    assert_eq!(a.bid_vault, d(0));
    assert_eq!(a.offer_vault, d(0));
}

#[test]
fn auction_returns_unsold_offer() {
    let mut a = Auction::new();
    a.create_bid(1, d(2), d(3)).unwrap();
    let (bought, left) = a.auction(d(10));
    assert_eq!(bought, d(2));
    assert_eq!(left, d(4));
    assert_eq!(a.offer_vault, d(6));
    let (bought, left) = a.auction(d(5));
    assert_eq!((bought, left), (d(0), d(5)));
}

#[test]
fn auction_bid_refusals_and_equal_prices_keep_order() {
    let mut a = Auction::new();
    assert_eq!(a.create_bid(1, d(1), d(0)), Err(AuctionError::NonPositivePrice));
    assert_eq!(a.create_bid(1, d(0), d(1)), Err(AuctionError::EmptyBid));
    assert_eq!(a.create_bid(0, d(1), d(1)), Err(AuctionError::ZeroId));
    a.create_bid(5, d(1), d(1)).unwrap();
    assert_eq!(a.create_bid(5, d(1), d(1)), Err(AuctionError::DuplicateId));
    a.create_bid(6, d(1), d(1)).unwrap();
    assert_eq!(a.chain[0].id, 5);
    assert_eq!(a.chain[1].id, 6);
    assert_eq!(a.close_bid(6), Ok((d(1), d(0))));
    assert_eq!(a.bid_vault, d(1));
}
