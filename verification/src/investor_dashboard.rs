//! An investor's dashboard: it finds a fund by name in the platform
//! registry (index funds) or in the farmers market (debt funds) and
//! forwards the investor's request to it.
//!
//! The registry, the market and the fund are passed in; the fund's address
//! is checked against the one recorded under the name. A refused lookup
//! leaves the fund untouched; otherwise the answer is the fund's own.
use vstd::prelude::*;
use crate::decimal::Decimal;
use crate::maple_finance::{MapleFinance, RegistryError, index_fund_of};
use crate::index_fund::{
    IndexFund,
    IndexFundError,
    buy_result,
    sell_result,
    issue_outcome,
    redeem_outcome,
};
use crate::debt_fund::{DebtFund, DebtFundError, supply_outcome, remove_outcome, claim_outcome};
use crate::farmers_market::{FarmersMarket, debt_fund_of, tracking_fund_of};
use crate::price_oracle::PriceOracle;

verus! {

/// Why the dashboard refused a request.
#[derive(Clone, Copy, Debug, PartialEq, Eq, Structural)]
pub enum InvestorDashboardError {
    /// The fund given is not the one recorded under the name.
    WrongFund,
    /// The registry or the market refused the lookup.
    Registry(RegistryError),
    /// The index fund refused the request.
    Fund(IndexFundError),
    /// The debt fund refused the request.
    DebtFund(DebtFundError),
}

/// The dashboard: the registry it looks funds up in.
#[derive(Clone, Copy, Debug, PartialEq, Eq, Structural)]
pub struct InvestorDashboard {
    pub registry: u64,
}

/// The lookup of the index fund named `name`, said to be at `address`:
/// the registry's refusal, `WrongFund` when another fund is registered
/// under the name, or success.
pub open spec fn index_lookup(registry: MapleFinance, name: Seq<char>, address: u64) -> Result<
    (),
    InvestorDashboardError,
> {
    match index_fund_of(registry, name) {
        Ok(a) => if a == address {
            Ok(())
        } else {
            Err(InvestorDashboardError::WrongFund)
        },
        Err(e) => Err(InvestorDashboardError::Registry(e)),
    }
}

/// The lookup of the debt fund named `name`, said to be at `address`.
pub open spec fn debt_lookup(market: FarmersMarket, name: Seq<char>, address: u64) -> Result<
    (),
    InvestorDashboardError,
> {
    match debt_fund_of(market, name) {
        Ok(a) => if a == address {
            Ok(())
        } else {
            Err(InvestorDashboardError::WrongFund)
        },
        Err(e) => Err(InvestorDashboardError::Registry(e)),
    }
}

/// The lookup of the debt fund that issues the tracking token `token`,
/// said to be at `address`.
pub open spec fn tracking_lookup(market: FarmersMarket, token: u64, address: u64) -> Result<
    (),
    InvestorDashboardError,
> {
    match tracking_fund_of(market, token) {
        Some(name) => debt_lookup(market, name, address),
        None => Err(InvestorDashboardError::Registry(RegistryError::NotFound)),
    }
}

/// An index fund's answer as the dashboard gives it.
pub open spec fn from_fund<T>(r: Result<T, IndexFundError>) -> Result<T, InvestorDashboardError> {
    match r {
        Ok(x) => Ok(x),
        Err(e) => Err(InvestorDashboardError::Fund(e)),
    }
}

/// The index fund's own answer inside one the dashboard gave after a
/// successful lookup.
pub open spec fn fund_answer<T>(r: Result<T, InvestorDashboardError>) -> Result<T, IndexFundError> {
    match r {
        Ok(x) => Ok(x),
        Err(InvestorDashboardError::Fund(e)) => Err(e),
        Err(_) => Err(IndexFundError::Valuation),
    }
}

/// The debt fund's own answer inside one the dashboard gave after a
/// successful lookup.
pub open spec fn debt_answer<T>(r: Result<T, InvestorDashboardError>) -> Result<T, DebtFundError> {
    match r {
        Ok(x) => Ok(x),
        Err(InvestorDashboardError::DebtFund(e)) => Err(e),
        Err(_) => Err(DebtFundError::Arithmetic),
    }
}

impl InvestorDashboard {
    /// A dashboard using the registry at `registry`.
    pub fn new(registry: u64) -> (r: InvestorDashboard)
        ensures
            r.registry == registry,
    {
        InvestorDashboard { registry }
    }

    /// Checks that the index fund registered under `fund_name` is at
    /// `fund_address`.
    fn lookup(&self, registry: &MapleFinance, fund_name: &String, fund_address: u64) -> (r: Result<
        (),
        InvestorDashboardError,
    >)
        ensures
            r == index_lookup(*registry, fund_name@, fund_address),
    {
        match registry.get_index_fund(fund_name) {
            Ok(a) => if a == fund_address {
                Ok(())
            } else {
                Err(InvestorDashboardError::WrongFund)
            },
            Err(e) => Err(InvestorDashboardError::Registry(e)),
        }
    }

    /// Checks that the debt fund the market lists under `fund_name` is at
    /// `fund_address`.
    fn lookup_debt(&self, market: &FarmersMarket, fund_name: &String, fund_address: u64) -> (r:
        Result<(), InvestorDashboardError>)
        ensures
            r == debt_lookup(*market, fund_name@, fund_address),
    {
        match market.get_debt_fund(fund_name) {
            Ok(a) => if a == fund_address {
                Ok(())
            } else {
                Err(InvestorDashboardError::WrongFund)
            },
            Err(e) => Err(InvestorDashboardError::Registry(e)),
        }
    }

    /// Checks that the debt fund issuing the tracking token `token` is at
    /// `fund_address`.
    fn lookup_tracking(&self, market: &FarmersMarket, token: u64, fund_address: u64) -> (r: Result<
        (),
        InvestorDashboardError,
    >)
        ensures
            r == tracking_lookup(*market, token, fund_address),
    {
        match market.get_tracking_tokens_mapping(token) {
            Ok(name) => self.lookup_debt(market, &name, fund_address),
            Err(e) => Err(InvestorDashboardError::Registry(e)),
        }
    }

    /// The registered index funds.
    pub fn retrieve_index_funds_lists(&self, registry: &MapleFinance) -> (r: Vec<
        ((String, String), u64),
    >)
        ensures
            r@.len() == registry.index_funds@.len(),
            forall|i: int|
                0 <= i < r@.len() ==> #[trigger] r@[i].0.0@ == registry.index_funds@[i].0.0@
                    && r@[i].0.1@ == registry.index_funds@[i].0.1@ && r@[i].1
                    == registry.index_funds@[i].1,
    {
        registry.index_fund_list()
    }

    /// The debt funds the market lists.
    pub fn retrieve_debt_funds_list(&self, market: &FarmersMarket) -> (r: Vec<(String, u64)>)
        ensures
            r@.len() == market.debt_funds@.len(),
            forall|i: int|
                0 <= i < r@.len() ==> #[trigger] r@[i].0@ == market.debt_funds@[i].0@ && r@[i].1
                    == market.debt_funds@[i].1,
    {
        market.debt_fund_list()
    }

    /// The exchange that buys fund tokens of the fund named `fund_name`
    /// for XRD (`token` against `xrd`).
    pub fn buy_fund_tokens(
        &self,
        registry: &MapleFinance,
        fund: &IndexFund,
        fund_address: u64,
        fund_name: &String,
        token: u64,
        xrd: u64,
    ) -> (r: Result<u64, InvestorDashboardError>)
        ensures
            r == match index_lookup(*registry, fund_name@, fund_address) {
                Ok(()) => from_fund(buy_result(*fund, token, xrd)),
                Err(e) => Err(e),
            },
    {
        match self.lookup(registry, fund_name, fund_address) {
            Ok(()) => {},
            Err(e) => {
                return Err(e);
            },
        }
        match fund.buy(token, xrd) {
            Ok(a) => Ok(a),
            Err(e) => Err(InvestorDashboardError::Fund(e)),
        }
    }

    /// The exchange that sells fund tokens (`token`) of the fund named
    /// `fund_name` for XRD.
    pub fn sell_fund_tokens(
        &self,
        registry: &MapleFinance,
        fund: &IndexFund,
        fund_address: u64,
        fund_name: &String,
        token: u64,
    ) -> (r: Result<u64, InvestorDashboardError>)
        ensures
            r == match index_lookup(*registry, fund_name@, fund_address) {
                Ok(()) => from_fund(sell_result(*fund, token)),
                Err(e) => Err(e),
            },
    {
        match self.lookup(registry, fund_name, fund_address) {
            Ok(()) => {},
            Err(e) => {
                return Err(e);
            },
        }
        match fund.sell(token) {
            Ok(a) => Ok(a),
            Err(e) => Err(InvestorDashboardError::Fund(e)),
        }
    }

    /// Issues fund tokens of the fund named `fund_name` for the buckets
    /// `buckets` (see `IndexFund::issue_tokens`).
    pub fn issue_tokens(
        &self,
        registry: &MapleFinance,
        fund: &mut IndexFund,
        fund_address: u64,
        fund_name: &String,
        buckets: &Vec<(u64, Decimal)>,
        oracle: &PriceOracle,
    ) -> (r: Result<Decimal, InvestorDashboardError>)
        requires
            old(fund).wf(),
            oracle.wf(),
        ensures
            final(fund).wf(),
            index_lookup(*registry, fund_name@, fund_address) matches Err(e) ==> r == Err::<
                Decimal,
                InvestorDashboardError,
            >(e) && *final(fund) == *old(fund),
            index_lookup(*registry, fund_name@, fund_address) is Ok ==> (r matches Err(e) ==> e is Fund)
                && issue_outcome(*old(fund), *final(fund), buckets@, oracle.prices@, fund_answer(r)),
    {
        match self.lookup(registry, fund_name, fund_address) {
            Ok(()) => {},
            Err(e) => {
                return Err(e);
            },
        }
        match fund.issue_tokens(buckets, oracle) {
            Ok(m) => Ok(m),
            Err(e) => Err(InvestorDashboardError::Fund(e)),
        }
    }

    /// Redeems `amount` fund tokens (of `token`) of the fund named
    /// `fund_name` (see `IndexFund::redeem`).
    pub fn redeem_fund_tokens(
        &self,
        registry: &MapleFinance,
        fund: &mut IndexFund,
        fund_address: u64,
        fund_name: &String,
        token: u64,
        amount: Decimal,
        oracle: &PriceOracle,
    ) -> (r: Result<Vec<Decimal>, InvestorDashboardError>)
        requires
            old(fund).wf(),
            oracle.wf(),
        ensures
            final(fund).wf(),
            index_lookup(*registry, fund_name@, fund_address) matches Err(e) ==> r == Err::<
                Vec<Decimal>,
                InvestorDashboardError,
            >(e) && *final(fund) == *old(fund),
            index_lookup(*registry, fund_name@, fund_address) is Ok ==> (r matches Err(e) ==> e is Fund)
                && redeem_outcome(
                *old(fund),
                *final(fund),
                token,
                amount,
                oracle.prices@,
                fund_answer(r),
            ),
    {
        match self.lookup(registry, fund_name, fund_address) {
            Ok(()) => {},
            Err(e) => {
                return Err(e);
            },
        }
        match fund.redeem(token, amount, oracle) {
            Ok(v) => Ok(v),
            Err(e) => Err(InvestorDashboardError::Fund(e)),
        }
    }

    /// Supplies `amount` of `resource` to the debt fund the market lists
    /// under `fund_name` (see `DebtFund::supply_liquidity`); returns the
    /// tracking tokens issued.
    pub fn supply_liquidity(
        &self,
        market: &FarmersMarket,
        fund: &mut DebtFund,
        fund_address: u64,
        fund_name: &String,
        resource: u64,
        amount: Decimal,
    ) -> (r: Result<Decimal, InvestorDashboardError>)
        ensures
            debt_lookup(*market, fund_name@, fund_address) matches Err(e) ==> r == Err::<
                Decimal,
                InvestorDashboardError,
            >(e) && *final(fund) == *old(fund),
            debt_lookup(*market, fund_name@, fund_address) is Ok ==> (r matches Err(e)
                ==> e is DebtFund) && supply_outcome(
                *old(fund),
                *final(fund),
                resource,
                amount,
                debt_answer(r),
            ),
    {
        match self.lookup_debt(market, fund_name, fund_address) {
            Ok(()) => {},
            Err(e) => {
                return Err(e);
            },
        }
        match fund.supply_liquidity(resource, amount) {
            Ok(t) => Ok(t),
            Err(e) => Err(InvestorDashboardError::DebtFund(e)),
        }
    }

    /// Returns `amount` tracking tokens (of `resource`) to the debt fund
    /// that issues them (see `DebtFund::remove_liquidity`); returns the
    /// liquidity paid out.
    pub fn remove_liquidity(
        &self,
        market: &FarmersMarket,
        fund: &mut DebtFund,
        fund_address: u64,
        resource: u64,
        amount: Decimal,
    ) -> (r: Result<Decimal, InvestorDashboardError>)
        ensures
            tracking_lookup(*market, resource, fund_address) matches Err(e) ==> r == Err::<
                Decimal,
                InvestorDashboardError,
            >(e) && *final(fund) == *old(fund),
            tracking_lookup(*market, resource, fund_address) is Ok ==> (r matches Err(e)
                ==> e is DebtFund) && remove_outcome(
                *old(fund),
                *final(fund),
                resource,
                amount,
                debt_answer(r),
            ),
    {
        match self.lookup_tracking(market, resource, fund_address) {
            Ok(()) => {},
            Err(e) => {
                return Err(e);
            },
        }
        match fund.remove_liquidity(resource, amount) {
            Ok(x) => Ok(x),
            Err(e) => Err(InvestorDashboardError::DebtFund(e)),
        }
    }

    /// Claims the fees owed to `amount` tracking tokens (of `resource`)
    /// from the debt fund that issues them (see `DebtFund::claim_fees`);
    /// returns the fees, vault by vault. The tracking tokens stay with the
    /// investor.
    pub fn claim_fees(
        &self,
        market: &FarmersMarket,
        fund: &mut DebtFund,
        fund_address: u64,
        resource: u64,
        amount: Decimal,
    ) -> (r: Result<Vec<Decimal>, InvestorDashboardError>)
        requires
            old(fund).wf(),
        ensures
            final(fund).wf(),
            tracking_lookup(*market, resource, fund_address) matches Err(e) ==> r == Err::<
                Vec<Decimal>,
                InvestorDashboardError,
            >(e) && *final(fund) == *old(fund),
            tracking_lookup(*market, resource, fund_address) is Ok ==> (r matches Err(e)
                ==> e is DebtFund) && claim_outcome(
                *old(fund),
                *final(fund),
                resource,
                amount,
                debt_answer(r),
            ),
    {
        match self.lookup_tracking(market, resource, fund_address) {
            Ok(()) => {},
            Err(e) => {
                return Err(e);
            },
        }
        match fund.claim_fees(resource, amount) {
            Ok(v) => Ok(v),
            Err(e) => Err(InvestorDashboardError::DebtFund(e)),
        }
    }
}

} // verus!
