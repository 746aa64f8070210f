//! Records shared by the lending components: loans, loan requests, badges
//! and the statuses they move through. Resource, component and
//! non-fungible addresses are carried as `u64` identifiers.
use vstd::prelude::*;
use crate::decimal::Decimal;

verus! {

/// A user of the lending platform and the funds it manages or invests in.
#[derive(Clone, Debug, PartialEq, Eq)]
pub struct User {
    pub funds_managed: Vec<(String, u64)>,
    pub funds_invested: Vec<(String, u64)>,
}

/// The two kinds of fund a manager can open.
#[derive(Clone, Copy, Debug, PartialEq, Eq, Structural)]
pub enum FundType {
    IndexFund,
    DebtFund,
}

/// The state of a loan.
#[derive(Clone, Copy, Debug, PartialEq, Eq, Structural)]
pub enum Status {
    AwaitingCollateral,
    ReadyToFund,
    Unfunded,
    Funded,
    PaidOff,
    Defaulted,
    Current,
}

/// How often a loan is paid.
#[derive(Clone, Copy, Debug, PartialEq, Eq, Structural)]
pub enum PaymentFrequency {
    Monthly,
    Quarterly,
    Yearly,
}

/// The terms and running balances of a loan, as its Loan NFT records them.
#[derive(Clone, Copy, Debug, PartialEq, Eq, Structural)]
pub struct Loan {
    pub borrower_id: u64,
    pub lender_id: u64,
    pub principal_loan_amount: Decimal,
    pub asset: u64,
    pub collateral: u64,
    pub collateral_percent: Decimal,
    pub annualized_interest_rate: Decimal,
    pub term_length: u64,
    pub payments_remaining: u64,
    pub payment_frequency: PaymentFrequency,
    pub origination_fee: Decimal,
    pub origination_fee_charged: Decimal,
    pub annualized_interest_expense: Decimal,
    pub accrued_interest_expense: Decimal,
    pub remaining_balance: Decimal,
    pub draw_limit: Decimal,
    pub draw_minimum: Decimal,
    pub last_draw: u64,
    pub collateral_amount: Decimal,
    pub collateral_amount_usd: Decimal,
    pub health_factor: Decimal,
    pub loan_status: Status,
}

/// The badge held by a funding locker's administrator (it carries no data).
#[derive(Clone, Copy, Debug, PartialEq, Eq, Structural)]
pub struct FundingLockerAdmin {}

/// A borrower's request to draw part of the loan proceeds.
#[derive(Clone, Copy, Debug, PartialEq, Eq, Structural)]
pub struct DrawRequest {
    pub amount: Decimal,
}

/// The terms of a flash loan: what must come back, in which asset.
#[derive(Clone, Copy, Debug, PartialEq, Eq, Structural)]
pub struct FlashLoan {
    pub amount_due: Decimal,
    pub asset: u64,
    pub borrow_count: u8,
}

/// What a liquidation auction must collect.
#[derive(Clone, Copy, Debug, PartialEq, Eq, Structural)]
pub struct AuctionAuth {
    pub amount_due: Decimal,
    pub collateral_due: Decimal,
    pub collateral_address: u64,
}

/// The review state of a loan request or a badge request.
#[derive(Clone, Copy, Debug, PartialEq, Eq, Structural)]
pub enum RequestStatus {
    Pending,
    Approved,
    Modified,
}

/// The badges a borrower can hold.
#[derive(Clone, Copy, Debug, PartialEq, Eq, Structural)]
pub enum BorrowerBadges {
    LoanRequestNFT,
    Borrower,
}

/// A borrower badge together with its data.
#[derive(Clone, Debug, PartialEq, Eq)]
pub enum BorrowerBadgeContainer {
    LoanRequestNFTContainer(LoanRequest),
    BorrowerContainer(Borrower),
}

/// The kinds of badge the platform issues.
#[derive(Clone, Copy, Debug, PartialEq, Eq, Structural)]
pub enum Badges {
    FundManager,
    Investor,
    Borrower,
    TemporaryBadge,
    LoanRequestNFT,
}

/// A badge together with its data.
#[derive(Clone, Debug, PartialEq, Eq)]
pub enum BadgeContainer {
    FundManagerContainer(FundManager),
    InvestorContainer(Investor),
    BorrowerContainer(Borrower),
    TemporaryBadgeContainer(TemporaryBadge),
    LoanRequestNFTContainer(LoanRequest),
}

/// A fund manager and the funds it runs.
#[derive(Clone, Debug, PartialEq, Eq)]
pub struct FundManager {
    pub name: String,
    pub managed_index_funds: Vec<((String, String), u64)>,
    pub managed_debt_funds: Vec<(u64, u64)>,
}

/// An investor's positions.
#[derive(Clone, Debug, PartialEq, Eq)]
pub struct Investor {
    pub funds_invested: Vec<(u64, Decimal)>,
    pub liquidity_pools: Vec<(u64, Decimal)>,
}

/// A borrower, its loan requests and its loans.
#[derive(Clone, Debug, PartialEq, Eq)]
pub struct Borrower {
    pub name: String,
    pub loan_requests: Vec<u64>,
    pub loans: Vec<u64>,
}

/// A badge handed out while a user's request for a role is reviewed.
#[derive(Clone, Debug, PartialEq, Eq)]
pub struct TemporaryBadge {
    pub name: String,
    pub user_type: UserType,
    pub status: RequestStatus,
}

/// The roles a user can request.
#[derive(Clone, Copy, Debug, PartialEq, Eq, Structural)]
pub enum UserType {
    FundManager,
    Borrower,
}

/// The terms a borrower asks for, and what became of the request.
#[derive(Clone, Copy, Debug, PartialEq, Eq, Structural)]
pub struct LoanRequest {
    pub asset: u64,
    pub loan_amount: Decimal,
    pub collateral_address: u64,
    pub collateral_percent: Decimal,
    pub term_length: u64,
    pub annualized_interest_rate: Decimal,
    pub payment_frequency: PaymentFrequency,
    pub borrower: u64,
    pub status: RequestStatus,
    pub loan_nft_id: Option<u64>,
    pub funding_locker_address: Option<u64>,
}

} // verus!
