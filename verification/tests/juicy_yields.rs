use yield_farming::decimal::Decimal;
use yield_farming::dexes::instantiate_dex;
use yield_farming::juicy_data::{InvestmentType, LevelChoice, UserPref};
use yield_farming::jyields::{
    choose_investment_type, plan_arbitrage, select_validator, JYields, JYieldsError,
};
use yield_farming::validators::instantiate_validators;

fn d(units: i64) -> Decimal {
    Decimal::from_attos(units as i128 * 1_000_000_000_000_000_000)
}

fn prefs(risk: LevelChoice, lottery: bool, charity: bool, airdrops: bool) -> UserPref {
    UserPref {
        risk_level: risk,
        contribution_level: LevelChoice::Low,
        wants_lottery: lottery,
        wants_charity: charity,
        wants_airdrops: airdrops,
    }
}

fn funded(amount: i64) -> JYields {
    let mut y = JYields::create_user("alice".to_owned(), 1, d(0));
    y.set_deposit(d(amount));
    y
}

#[test]
fn validators_list_matches_fixed_data() {
    let vs = instantiate_validators();
    assert_eq!(vs.len(), 5);
    assert_eq!(vs[0].val_name, "Validator 1");
    assert_eq!(vs[0].apy, Decimal::new(952, 2));
    assert_eq!(vs[1].uptime, d(100));
    assert_eq!(vs[4].uptime, Decimal::new(951, 1));
    assert_eq!(vs[4].fee, Decimal::new(5, 1));
    assert_eq!(vs[2].val_name, vs[3].val_name);
    assert_ne!(vs[2].val_address, vs[3].val_address);
}

#[test]
fn dex_list_matches_fixed_quotes() {
    let ds = instantiate_dex();
    assert_eq!(ds.len(), 3);
    assert_eq!(ds[0].dex_name, "Ociswap");
    assert_eq!(ds[0].value, Decimal::new(453, 2));
    assert_eq!(ds[1].swap_fee, Decimal::new(5, 3));
    assert_eq!(ds[2].token, "XSE");
}

#[test]
fn select_validator_for_default_preferences() {
    let vs = instantiate_validators();
    // The first four have the uptime a low risk asks; the climb settles on the second.
    assert_eq!(select_validator(&vs, prefs(LevelChoice::Low, false, false, false)), Some(1));
}

#[test]
fn select_validator_with_extras_and_risk() {
    let vs = instantiate_validators();
    assert_eq!(select_validator(&vs, prefs(LevelChoice::High, true, false, false)), Some(1));
    assert_eq!(select_validator(&vs, prefs(LevelChoice::Medium, false, true, true)), Some(1));
    assert_eq!(select_validator(&Vec::new(), prefs(LevelChoice::High, false, false, false)), None);
    // Only the last validator lacks a low risk's uptime: a list of it alone has no candidate.
    let last = vec![vs[4].clone()];
    assert_eq!(select_validator(&last, prefs(LevelChoice::Low, false, false, false)), None);
    assert_eq!(select_validator(&last, prefs(LevelChoice::Medium, false, false, false)), Some(0));
}

#[test]
fn arbitrage_profit_on_fixed_quotes() {
    let ds = instantiate_dex();
    // 100 * (4.53 - 0.004) - 100 * (4.28 - 0.005) = 25.1
    assert_eq!(plan_arbitrage(&ds, &"DPH".to_owned(), d(100)), Decimal::new(251, 1));
    assert_eq!(plan_arbitrage(&ds, &"XSE".to_owned(), d(100)), d(0));
    assert_eq!(plan_arbitrage(&ds, &"ABC".to_owned(), d(100)), d(0));
}

#[test]
fn choose_investment_type_by_risk() {
    assert_eq!(choose_investment_type(LevelChoice::High, d(5), d(7), d(6)), InvestmentType::Lending);
    assert_eq!(choose_investment_type(LevelChoice::Medium, d(5), d(7), d(6)), InvestmentType::Arbitrage);
    assert_eq!(choose_investment_type(LevelChoice::Low, d(5), d(4), d(6)), InvestmentType::Staking);
    assert_eq!(choose_investment_type(LevelChoice::Low, d(5), d(7), d(6)), InvestmentType::Lending);
    assert_eq!(choose_investment_type(LevelChoice::High, d(9), d(7), d(6)), InvestmentType::Staking);
}

#[test]
fn create_user_has_defaults() {
    let y = JYields::create_user("bob".to_owned(), 9, d(3));
    assert_eq!(y.user_data.user_name, "bob");
    assert_eq!(y.user_data.preferences, prefs(LevelChoice::Low, false, false, false));
    assert_eq!(y.xrd_wallet, d(0));
    assert_eq!(y.juicy_wallet, d(3));
    assert!(y.investment_data.is_empty());
}

#[test]
fn stake_charges_two_and_a_half_percent() {
    let mut y = funded(1000);
    assert_eq!(y.perform_stake(d(100)), Ok(Decimal::new(975, 1)));
    assert_eq!(y.xrd_wallet, d(900));
    assert_eq!(y.fee_wallet, Decimal::new(25, 1));
    assert_eq!(y.investment_data.len(), 1);
    assert_eq!(y.investment_data[0].inv_type, InvestmentType::Staking);
    assert_eq!(y.investment_data[0].inv_address, "Best Validator found");
    assert_eq!(y.perform_stake(d(1000)), Err(JYieldsError::NotEnoughXrd));
    assert_eq!(y.xrd_wallet, d(900));
    assert_eq!(y.perform_stake(d(-10)), Err(JYieldsError::NegativeAmount));
    assert_eq!(y.investment_data.len(), 1);
}

#[test]
fn lending_and_betting_fees() {
    let mut y = funded(1000);
    assert_eq!(y.perform_lending(d(100)), Ok(Decimal::new(985, 1)));
    assert_eq!(y.perform_bet(d(100)), Ok(d(94)));
    assert_eq!(y.xrd_wallet, d(800));
    assert_eq!(y.fee_wallet, Decimal::new(75, 1));
    assert_eq!(y.investment_data[1].inv_type, InvestmentType::Betting);
    assert_eq!(y.collect_fee(), Decimal::new(75, 1));
    assert_eq!(y.fee_wallet, d(0));
}

#[test]
fn lottery_ticket_costs_a_hundred() {
    let mut y = funded(150);
    assert_eq!(y.buy_lottery(), Ok(d(95)));
    assert_eq!(y.xrd_wallet, d(50));
    assert_eq!(y.fee_wallet, d(5));
    assert_eq!(y.investment_data[0].inv_type, InvestmentType::Lottery);
    assert_eq!(y.buy_lottery(), Err(JYieldsError::NotEnoughXrd));
    assert_eq!(y.xrd_wallet, d(50));
}

#[test]
fn arbitrage_runs_only_on_enough_profit() {
    let mut y = funded(1000);
    assert_eq!(y.perform_arbitrage(d(10), &"DPH".to_owned()), Ok(false));
    assert!(y.investment_data.is_empty());
    assert_eq!(y.perform_arbitrage(d(100), &"DPH".to_owned()), Ok(true));
    // 5% of the 25.1 profit
    assert_eq!(y.fee_wallet, Decimal::new(1255, 3));
    assert_eq!(y.xrd_wallet, Decimal::new(998745, 3));
    assert_eq!(y.investment_data[0].inv_value, d(100));
    assert_eq!(y.perform_arbitrage(d(5000), &"DPH".to_owned()), Err(JYieldsError::NotEnoughXrd));
}

#[test]
fn proposal_stakes_with_current_rates() {
    let mut y = funded(1000);
    y.set_preferences(LevelChoice::High, LevelChoice::High, true, false, false);
    assert_eq!(y.make_proposal(d(100)), Ok(Some(Decimal::new(975, 1))));
    assert_eq!(y.investment_data[0].inv_type, InvestmentType::Staking);
    assert_eq!(y.make_proposal(d(2000)), Err(JYieldsError::NotEnoughXrd));
}

#[test]
fn juice_wallet_drops_and_checks() {
    let mut y = funded(0);
    y.drop_juice(d(4));
    y.drop_juice(d(6));
    assert_eq!(y.check_juice_amount(), d(10));
    assert_eq!(y.juicy_wallet, d(0));
}
