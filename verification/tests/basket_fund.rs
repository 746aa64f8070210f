use yield_farming::amm_pool::Pool;
use yield_farming::auction::Auction;
use yield_farming::decimal::Decimal;
use yield_farming::fund::{Fund, FundError, Status};

fn d(units: i64) -> Decimal {
    Decimal::from_attos(units as i128 * 1_000_000_000_000_000_000)
}

fn fund() -> Fund {
    Fund::new("Basket".to_string(), 1, 2, d(5)).unwrap()
}

#[test]
fn fund_new_checks_delay_and_fee() {
    assert_eq!(Fund::new("f".to_string(), 1, 1, d(5)).err(), Some(FundError::InvalidAuctionDelay));
    assert_eq!(Fund::new("f".to_string(), 1, 2, d(11)).err(), Some(FundError::InvalidFeePercent));
    assert_eq!(Fund::new("f".to_string(), 1, 2, d(-1)).err(), Some(FundError::InvalidFeePercent));
    let f = fund();
    assert!(f.mutable);
    assert_eq!(f.supply, d(0));
}

#[test]
fn fund_set_immutable_once() {
    let mut f = fund();
    assert_eq!(f.set_immutable(), Ok(()));
    assert_eq!(f.set_immutable(), Err(FundError::NotMutable));
    assert_eq!(f.add_investment(10, (20, 1), 30, 31), Err(FundError::NotMutable));
}

#[test]
fn fund_add_investment_needs_denominator_pair() {
    let mut f = fund();
    assert_eq!(f.add_investment(10, (20, 9), 30, 31), Err(FundError::InvalidPair));
    assert_eq!(f.add_investment(10, (20, 1), 30, 31), Ok(()));
    assert_eq!(f.investments.len(), 1);
    assert_eq!(f.investments[0].token, 20);
}

#[test]
fn fund_mint_first_is_one_to_one_then_by_reserve() {
    let mut f = fund();
    assert_eq!(f.mint(d(100), &vec![]), Ok(d(100)));
    assert_eq!(f.denominator_tokens, d(100));
    assert_eq!(f.supply, d(100));
    assert_eq!(f.mint(d(50), &vec![]), Ok(d(50)));
    assert_eq!(f.denominator_tokens, d(150));
    assert_eq!(f.supply, d(150));
}

#[test]
fn fund_stake_checks() {
    let mut f = fund();
    f.add_investment(10, (20, 1), 30, 31).unwrap();
    assert_eq!(f.stake(d(10), 3, 1), Err(FundError::InvestmentNotFound));
    assert_eq!(f.stake(d(0), 0, 1), Err(FundError::NonPositiveStake));
    assert_eq!(f.stake(d(10), 0, 1), Ok(0));
    assert_eq!(f.fund_tokens, d(10));
    assert_eq!(f.unstake(0, 2), Err(FundError::CurrentlyStaking));
    assert_eq!(f.collect_unstaked(0), Err(FundError::CurrentlyStaking));
    assert_eq!(f.unstake(5, 2), Err(FundError::InvalidReceipt));
}

#[test]
fn fund_full_stake_cycle_rewards_a_gain() {
    let mut f = fund();
    f.add_investment(10, (20, 1), 30, 31).unwrap();
    f.mint(d(100), &vec![d(0)]).unwrap();
    let id = f.stake(d(10), 0, 1).unwrap();
    assert_eq!(f.staking_plan(3).err(), Some(FundError::NothingDue));
    let sells = f.staking_plan(4).unwrap();
    assert_eq!(sells.len(), 0);
    assert_eq!(f.staking_offer(&vec![]), Some(d(100)));
    assert_eq!(f.process_staking_step(4, &vec![], &vec![], (d(50), d(0))), Ok(Status::Staked));
    let rc = f.receipts[0].unwrap();
    assert_eq!(rc.price, d(2));
    assert_eq!(f.investments[0].stake_pool, d(10));
    assert_eq!(f.investments[0].tokens, d(50));
    assert_eq!(f.denominator_tokens, d(0));
    assert_eq!(f.fund_tokens, d(0));
    assert_eq!(f.unstake(id, 5), Ok(()));
    assert_eq!(f.unstake(id, 5), Err(FundError::AlreadyUnstaking));
    assert_eq!(f.unstaking_sale(7).err(), Some(FundError::NothingDue));
    assert_eq!(f.unstaking_sale(8), Ok((0, d(50))));
    assert_eq!(f.unstaking_next_buy(8, (d(150), d(0)), &vec![]), Ok(None));
    let reward = f.process_unstaking_step(8, (d(150), d(0)), &vec![]).unwrap();
    assert_eq!(reward, Decimal::from_attos(1_666_666_666_666_666_670));
    assert_eq!(f.supply, Decimal::from_attos(101_666_666_666_666_666_670));
    assert_eq!(f.denominator_tokens, d(150));
    assert_eq!(f.investments[0].tokens, d(0));
    assert_eq!(f.investments[0].stake_pool, d(0));
    assert_eq!(f.receipts[0].unwrap().status, Status::Unstaked);
    assert_eq!(f.collect_unstaked(id), Ok(Decimal::from_attos(11_666_666_666_666_666_670)));
    assert_eq!(f.fund_tokens, d(0));
    assert_eq!(f.collect_unstaked(id), Err(FundError::InvalidReceipt));
}

#[test]
fn fund_failed_purchase_unstakes_without_moving_stake() {
    let mut f = fund();
    f.add_investment(10, (20, 1), 30, 31).unwrap();
    f.mint(d(100), &vec![d(0)]).unwrap();
    f.stake(d(10), 0, 1).unwrap();
    assert_eq!(f.process_staking_step(4, &vec![], &vec![], (d(0), d(100))), Ok(Status::Unstaked));
    assert_eq!(f.investments[0].stake_pool, d(0));
    assert_eq!(f.fund_tokens, d(10));
    assert_eq!(f.collect_unstaked(0), Ok(d(10)));
}

#[test]
fn fund_unstake_at_a_loss_burns_part_of_the_stake() {
    let mut f = fund();
    f.add_investment(10, (20, 1), 30, 31).unwrap();
    f.mint(d(100), &vec![d(0)]).unwrap();
    let id = f.stake(d(10), 0, 1).unwrap();
    f.process_staking_step(4, &vec![], &vec![], (d(50), d(0))).unwrap();
    f.unstake(id, 5).unwrap();
    let reward = f.process_unstaking_step(8, (d(50), d(0)), &vec![]).unwrap();
    assert_eq!(reward, d(-5));
    assert_eq!(f.supply, d(95));
    assert_eq!(f.collect_unstaked(id), Ok(d(5)));
}

#[test]
fn fund_redeem_for_tokens_takes_share_of_everything() {
    let mut f = fund();
    f.mint(d(100), &vec![]).unwrap();
    let out = f.redeem_for_tokens(d(25)).unwrap();
    assert_eq!(out, vec![d(25)]);
    assert_eq!(f.denominator_tokens, d(75));
    assert_eq!(f.supply, d(75));
    assert_eq!(f.redeem(d(15), &vec![d(1)]), Err(FundError::OutcomeMismatch));
    assert_eq!(f.redeem(d(15), &vec![]), Ok(d(15)));
    assert_eq!(f.supply, d(60));
}

fn auctions_with_bids() -> Vec<Auction> {
    let mut buy = Auction::new();
    buy.create_bid(1, d(50), d(2)).unwrap();
    let mut sell = Auction::new();
    sell.create_bid(1, d(100), Decimal::new(5, 1)).unwrap();
    vec![buy, sell]
}

#[test]
fn fund_processes_queues_through_auctions() {
    let mut f = fund();
    f.add_investment(10, (20, 1), 0, 1).unwrap();
    f.mint(d(100), &vec![d(0)]).unwrap();
    let id = f.stake(d(10), 0, 1).unwrap();
    let mut auctions = auctions_with_bids();
    assert_eq!(f.process_staking(3, &mut auctions), Ok(0));
    assert_eq!(f.staking_queue.len(), 1);
    assert_eq!(f.process_staking(4, &mut auctions), Ok(1));
    assert!(f.staking_queue.is_empty());
    let rc = f.receipts[0].unwrap();
    assert_eq!(rc.status, Status::Staked);
    assert_eq!(rc.price, d(2));
    assert_eq!(f.investments[0].tokens, d(50));
    assert_eq!(f.investments[0].stake_pool, d(10));
    assert_eq!(f.denominator_tokens, d(0));
    assert_eq!(auctions[0].bid_vault, d(0));
    assert_eq!(auctions[0].offer_vault, d(100));
    f.unstake(id, 5).unwrap();
    assert_eq!(f.process_unstaking(7, &mut auctions), Ok(0));
    assert_eq!(f.process_unstaking(8, &mut auctions), Ok(1));
    let rc = f.receipts[0].unwrap();
    assert_eq!(rc.status, Status::Unstaked);
    assert_eq!(rc.reward, d(0));
    assert_eq!(f.denominator_tokens, d(100));
    assert_eq!(f.investments[0].tokens, d(0));
    assert_eq!(f.fund_tokens, d(10));
    assert_eq!(auctions[1].offer_vault, d(50));
    assert_eq!(f.collect_unstaked(id), Ok(d(10)));
}

#[test]
fn fund_round_with_unknown_auction_changes_nothing() {
    let mut f = fund();
    f.add_investment(10, (20, 1), 7, 1).unwrap();
    f.mint(d(100), &vec![d(0)]).unwrap();
    f.stake(d(10), 0, 1).unwrap();
    let mut auctions = auctions_with_bids();
    assert_eq!(f.process_staking(4, &mut auctions), Err(FundError::UnknownAuction));
    assert_eq!(f.staking_queue.len(), 1);
    assert_eq!(f.denominator_tokens, d(100));
    assert_eq!(f.receipts[0].unwrap().status, Status::Staking);
    assert_eq!(auctions[0].bid_vault, d(50));
}

#[test]
fn fund_mints_through_pools_for_stakers() {
    let mut f = fund();
    f.add_investment(0, (20, 1), 30, 31).unwrap();
    let (pool, _) = Pool::new(20, 1, 99, d(100), d(100));
    let mut pools = vec![pool];
    assert_eq!(f.mint_through_pools(d(100), &mut pools), Ok(d(100)));
    assert_eq!(pools[0].y, d(100));
    f.stake(d(10), 0, 1).unwrap();
    f.process_staking_step(4, &vec![], &vec![], (d(50), d(0))).unwrap();
    assert_eq!(f.denominator_tokens, d(0));
    // 20 denominator tokens buy 100 * 20 / 120 tokens; the value bought is a third of the stake.
    assert_eq!(f.mint_through_pools(d(20), &mut pools), Ok(Decimal::from_attos(33_333_333_333_333_333_300)));
    assert_eq!(pools[0].y, d(120));
    assert_eq!(pools[0].x, Decimal::from_attos(83_333_333_333_333_333_334));
    assert_eq!(f.investments[0].tokens, Decimal::from_attos(66_666_666_666_666_666_666));
    assert_eq!(f.supply, Decimal::from_attos(133_333_333_333_333_333_300));
}

#[test]
fn fund_redeems_through_pools() {
    let mut f = fund();
    f.add_investment(0, (20, 1), 30, 31).unwrap();
    let (pool, _) = Pool::new(20, 1, 99, d(100), d(100));
    let mut pools = vec![pool];
    f.mint_through_pools(d(100), &mut pools).unwrap();
    assert_eq!(f.redeem_through_pools(d(50), &mut pools), Ok(d(50)));
    assert_eq!(f.supply, d(50));
    assert_eq!(f.denominator_tokens, d(50));
    assert_eq!(pools[0].x, d(100));
    let mut g = fund();
    g.add_investment(5, (20, 1), 30, 31).unwrap();
    g.mint_through_pools(d(100), &mut pools).unwrap();
    assert_eq!(g.redeem_through_pools(d(50), &mut pools), Err(FundError::UnknownPool));
    assert_eq!(g.supply, d(100));
    assert_eq!(g.denominator_tokens, d(100));
}
