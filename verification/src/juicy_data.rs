//! The records of the Juicy Yields platform: users and their preferences,
//! validators and exchanges considered for investment, and the investments
//! made.
use vstd::prelude::*;
use crate::decimal::Decimal;

verus! {

/// A user: a name, the id of the resource that stands for them, and their
/// preferences.
#[derive(Clone, Debug)]
pub struct User {
    pub user_name: String,
    pub user_address: u64,
    pub preferences: UserPref,
}

/// A level a user can choose for risk and for contribution to the network.
#[derive(Clone, Copy, Debug, PartialEq, Eq, Structural)]
pub enum LevelChoice {
    Low,
    Medium,
    High,
}

/// A user's investment preferences.
#[derive(Clone, Copy, Debug, PartialEq, Eq, Structural)]
pub struct UserPref {
    pub risk_level: LevelChoice,
    pub contribution_level: LevelChoice,
    pub wants_lottery: bool,
    pub wants_charity: bool,
    pub wants_airdrops: bool,
}

/// A validator considered for staking.
#[derive(Clone, Debug)]
pub struct Validator {
    pub val_name: String,
    pub val_address: String,
    pub apy: Decimal,
    pub uptime: Decimal,
    pub fee: Decimal,
    pub rank: u8,
    pub does_lottery: bool,
    pub does_charity: bool,
    pub does_airdrops: bool,
}

/// An exchange quoting a token, considered for arbitrage.
#[derive(Clone, Debug)]
pub struct Dex {
    pub dex_name: String,
    pub token: String,
    pub value: Decimal,
    pub swap_fee: Decimal,
}

/// The kinds of investment.
#[derive(Clone, Copy, Debug, PartialEq, Eq, Structural)]
pub enum InvestmentType {
    Staking,
    Lending,
    Betting,
    Lottery,
    Arbitrage,
}

/// An investment made for a user.
#[derive(Clone, Debug)]
pub struct Investment {
    pub inv_type: InvestmentType,
    pub inv_value: Decimal,
    pub inv_address: String,
}

} // verus!
