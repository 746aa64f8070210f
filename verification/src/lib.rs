//! Verified accounting logic for a family of yield-farming and portfolio
//! components: constant-product pools, bid auctions, staking funds, loan
//! lockers, index funds and investment helpers.
pub mod decimal;
pub mod text;
pub mod auction;
pub mod amm_pool;
pub mod structs;
pub mod funding_locker;
pub mod juicy_data;
pub mod dexes;
pub mod validators;
pub mod jyields;
pub mod juice;
pub mod trading_app;
pub mod portfolio_app;
pub mod ledger;
pub mod price_oracle;
pub mod oracle_dex;
pub mod fund;
pub mod flashloan;
pub mod indexer;
pub mod utils;
pub mod registry;
pub mod maple_finance;
pub mod farmers_market;
pub mod index_fund;
pub mod debt_fund;
pub mod investment_pool;
pub mod fund_manager_dashboard;
pub mod borrower_dashboard;
pub mod investor_dashboard;
pub mod fund_locker;
pub mod pool_delegate_dashboard;
pub mod main_dashboard;
