//! A fund manager's dashboard: it opens index funds and debt funds for its
//! manager and records them with the platform registry, and registers the
//! funding lockers its debt funds open.
//!
//! The registry and the price oracle are passed in; a new fund's component
//! address is given by the caller that instantiates it. A request that
//! fails a check or overflows is refused with an error and leaves
//! the dashboard, the registry and the oracle unchanged.
use vstd::prelude::*;
use crate::decimal::Decimal;
use crate::ledger::keys_distinct;
use crate::structs::FundManager;
use crate::maple_finance::{MapleFinance, RegistryError, key_in};
use crate::index_fund::{IndexFund, IndexFundError};
use crate::debt_fund::{DebtFund, DebtFundError};
use crate::price_oracle::PriceOracle;
use crate::utils::{sort_string, lex_gt};

verus! {

/// Why the dashboard refused a request.
#[derive(Clone, Copy, Debug, PartialEq, Eq, Structural)]
pub enum DashboardError {
    /// The badge is not the one this call needs.
    Unauthorized,
    /// An index fund with this name or key is already registered.
    NameTaken,
    /// The index fund refused to open.
    IndexFund(IndexFundError),
    /// The debt fund refused to open.
    DebtFund(DebtFundError),
    /// The registry refused the request.
    Registry(RegistryError),
}

/// The dashboard: its manager's badge and data, and the resources and
/// components it works with.
#[derive(Debug)]
pub struct FundManagerDashboard {
    pub fund_manager_resource: u64,
    pub fund_manager_id: u64,
    /// The manager's badge data: name and the funds it manages.
    pub manager: FundManager,
    pub loan_request_resource: u64,
    pub loan_nft_admin: u64,
    pub price_oracle: u64,
    pub registry: u64,
}

/// Whether an index fund name is registered.
pub open spec fn name_registered(r: &MapleFinance, name: Seq<char>) -> bool {
    exists|j: int|
        0 <= j < r.index_fund_names@.len() && #[trigger] r.index_fund_names@[j].0@ == name
}

/// Whether an index fund key is registered.
pub open spec fn key_registered(r: &MapleFinance, a: Seq<char>, b: Seq<char>) -> bool {
    exists|j: int|
        0 <= j < r.index_funds@.len() && #[trigger] r.index_funds@[j].0.0@ == a
            && r.index_funds@[j].0.1@ == b
}

/// The keys and addresses of a list of index funds, with each name and
/// ticker taken as its text.
pub open spec fn fund_keys(v: Seq<((String, String), u64)>) -> Seq<(Seq<char>, Seq<char>, u64)> {
    v.map_values(|e: ((String, String), u64)| (e.0.0@, e.0.1@, e.1))
}

impl FundManagerDashboard {
    /// A dashboard for the manager `fund_manager_id` named `name`.
    pub fn new(
        fund_manager_resource: u64,
        fund_manager_id: u64,
        name: String,
        loan_request_resource: u64,
        loan_nft_admin: u64,
        price_oracle: u64,
        registry: u64,
    ) -> (r: FundManagerDashboard)
        ensures
            r.fund_manager_resource == fund_manager_resource,
            r.fund_manager_id == fund_manager_id,
            r.manager.name@ == name@,
            r.manager.managed_index_funds@.len() == 0,
            r.manager.managed_debt_funds@.len() == 0,
            r.loan_request_resource == loan_request_resource,
            r.loan_nft_admin == loan_nft_admin,
            r.price_oracle == price_oracle && r.registry == registry,
    {
        FundManagerDashboard {
            fund_manager_resource,
            fund_manager_id,
            manager: FundManager {
                name,
                managed_index_funds: Vec::new(),
                managed_debt_funds: Vec::new(),
            },
            loan_request_resource,
            loan_nft_admin,
            price_oracle,
            registry,
        }
    }

    /// Opens an index fund for the manager (badge of `badge_resource`):
    /// its name and ticker are `fund_name` and `fund_ticker` ordered by
    /// `sort_string`; the fund (see `IndexFund::new`) is registered under
    /// that pair at `address`, and the pair is recorded as a name and its
    /// ticker. Refused when the name is registered already, or the pair or
    /// its first string is.
    pub fn new_index_fund(
        &mut self,
        registry: &mut MapleFinance,
        oracle: &mut PriceOracle,
        badge_resource: u64,
        fund_name: String,
        fee_to_pool: Decimal,
        fund_ticker: String,
        starting_share_price: Decimal,
        tokens: &Vec<(u64, Decimal)>,
        fund_admin: u64,
        fund_trader: u64,
        fund_token: u64,
        address: u64,
    ) -> (r: Result<IndexFund, DashboardError>)
        requires
            old(oracle).wf(),
            keys_distinct(tokens@),
        ensures
            final(oracle).wf(),
            badge_resource != old(self).fund_manager_resource ==> r == Err::<
                IndexFund,
                DashboardError,
            >(DashboardError::Unauthorized),
            badge_resource == old(self).fund_manager_resource && name_registered(
                &*old(registry),
                fund_name@,
            ) ==> r == Err::<IndexFund, DashboardError>(DashboardError::NameTaken),
            r is Err ==> *final(self) == *old(self) && *final(registry) == *old(registry)
                && *final(oracle) == *old(oracle),
            r matches Ok(f) ==> {
                let a = if lex_gt(fund_name@, fund_ticker@) {
                    fund_name@
                } else {
                    fund_ticker@
                };
                let b = if lex_gt(fund_name@, fund_ticker@) {
                    fund_ticker@
                } else {
                    fund_name@
                };
                &&& badge_resource == old(self).fund_manager_resource
                &&& !name_registered(&*old(registry), fund_name@)
                &&& !name_registered(&*old(registry), a)
                &&& !key_registered(&*old(registry), a, b)
                &&& f.wf()
                &&& f.fund_name@ == a && f.fund_ticker@ == b
                &&& f.fund_token == fund_token && f.fee_to_pool == fee_to_pool
                &&& f.starting_share_price == starting_share_price
                &&& final(oracle).prices@ == old(oracle).prices@.insert(
                    fund_token,
                    starting_share_price@,
                )
                &&& final(registry).index_fund_names@.len() == old(registry).index_fund_names@.len()
                    + 1
                &&& final(registry).index_fund_names@.last().0@ == a
                &&& final(registry).index_fund_names@.last().1@ == b
                &&& final(registry).index_funds@.len() == old(registry).index_funds@.len() + 1
                &&& final(registry).index_funds@.last().0.0@ == a
                &&& final(registry).index_funds@.last().0.1@ == b
                &&& final(registry).index_funds@.last().1 == address
                &&& final(self).manager.managed_index_funds@.len()
                    == old(self).manager.managed_index_funds@.len() + 1
                &&& final(self).manager.managed_index_funds@.last().1 == address
            },
    {
        if badge_resource != self.fund_manager_resource {
            return Err(DashboardError::Unauthorized);
        }
        if registry.assert_index_fund_name(&fund_name) {
            return Err(DashboardError::NameTaken);
        }
        let ghost name0 = fund_name@;
        let ghost ticker0 = fund_ticker@;
        let (a, b) = sort_string(fund_name, fund_ticker);
        if registry.assert_index_fund_name(&a) {
            return Err(DashboardError::NameTaken);
        }
        if crate::registry::find_pair(&registry.index_funds, &a, &b).is_some() {
            return Err(DashboardError::NameTaken);
        }
        let fund = match IndexFund::new(
            a.clone(),
            b.clone(),
            fee_to_pool,
            starting_share_price,
            tokens,
            fund_admin,
            fund_trader,
            fund_token,
            oracle,
        ) {
            Ok(f) => f,
            Err(e) => {
                return Err(DashboardError::IndexFund(e));
            },
        };
        let a2 = a.clone();
        let b2 = b.clone();
        self.manager.managed_index_funds.push(((a2, b2), address));
        let ghost av = a@;
        let ghost bv = b@;
        let r1 = registry.insert_index_fund_name(a.clone(), b.clone());
        assert(r1 is Ok);
        let r2 = registry.insert_index_fund(a, b, address);
        assert(r2 is Ok);
        Ok(fund)
    }

    /// Opens a debt fund of `asset` with `initial_funds` for the manager
    /// (badge of `badge_resource`), registered with the registry under the
    /// manager's id at `address`. Returns the fund (its creator holds the
    /// first tracking tokens).
    pub fn new_debt_fund(
        &mut self,
        registry: &mut MapleFinance,
        badge_resource: u64,
        asset: u64,
        initial_funds: Decimal,
        debt_fund_badge: u64,
        tracking_token: u64,
        loan_nft_resource: u64,
        address: u64,
    ) -> (r: Result<DebtFund, DashboardError>)
        ensures
            badge_resource != old(self).fund_manager_resource ==> r == Err::<
                DebtFund,
                DashboardError,
            >(DashboardError::Unauthorized),
            badge_resource == old(self).fund_manager_resource && key_in(
                old(registry).debt_funds@,
                old(self).fund_manager_id,
            ) ==> r == Err::<DebtFund, DashboardError>(
                DashboardError::Registry(RegistryError::AlreadyExists),
            ),
            r is Ok <==> badge_resource == old(self).fund_manager_resource && !key_in(
                old(registry).debt_funds@,
                old(self).fund_manager_id,
            ) && initial_funds@ != 0,
            r is Err ==> *final(self) == *old(self) && *final(registry) == *old(registry),
            r matches Ok(f) ==> {
                &&& f.vault == initial_funds && f.asset == asset
                &&& f.fund_manager_id == old(self).fund_manager_id
                &&& f.fund_manager_dashboard is Some
                &&& final(registry).debt_funds@ == old(registry).debt_funds@.push(
                    (old(self).fund_manager_id, address),
                )
                &&& final(self).manager.managed_debt_funds@ == old(
                    self,
                ).manager.managed_debt_funds@.push((asset, address))
            },
    {
        if badge_resource != self.fund_manager_resource {
            return Err(DashboardError::Unauthorized);
        }
        if crate::registry::find_key(&registry.debt_funds, self.fund_manager_id).is_some() {
            return Err(DashboardError::Registry(RegistryError::AlreadyExists));
        }
        let fund = match DebtFund::new(
            self.fund_manager_resource,
            self.fund_manager_id,
            asset,
            initial_funds,
            debt_fund_badge,
            tracking_token,
            self.loan_request_resource,
            loan_nft_resource,
            Some(self.registry),
        ) {
            Ok(f) => f,
            Err(e) => {
                return Err(DashboardError::DebtFund(e));
            },
        };
        self.manager.managed_debt_funds.push((asset, address));
        let r1 = registry.insert_debt_fund(self.fund_manager_id, address);
        assert(r1 is Ok);
        Ok(fund)
    }

    /// Registers with the registry the funding locker `locker` of the loan
    /// `loan_id`, on behalf of a debt fund (proof of `badge_resource`,
    /// which must be the loan NFT admin badge).
    pub fn insert_funding_locker(
        &self,
        registry: &mut MapleFinance,
        badge_resource: u64,
        loan_id: u64,
        locker: u64,
    ) -> (r: Result<(), DashboardError>)
        ensures
            badge_resource != self.loan_nft_admin ==> r == Err::<(), DashboardError>(
                DashboardError::Unauthorized,
            ),
            badge_resource == self.loan_nft_admin && key_in(old(registry).funding_lockers@, loan_id)
                ==> r == Err::<(), DashboardError>(
                DashboardError::Registry(RegistryError::AlreadyExists),
            ),
            r is Ok <==> badge_resource == self.loan_nft_admin && !key_in(
                old(registry).funding_lockers@,
                loan_id,
            ),
            r is Err ==> *final(registry) == *old(registry),
            r is Ok ==> final(registry).funding_lockers@ == old(registry).funding_lockers@.push(
                (loan_id, locker),
            ),
    {
        if badge_resource != self.loan_nft_admin {
            return Err(DashboardError::Unauthorized);
        }
        match registry.insert_funding_lockers(loan_id, locker) {
            Ok(()) => Ok(()),
            Err(e) => Err(DashboardError::Registry(e)),
        }
    }

    /// The index funds this dashboard's manager runs, each with its
    /// (name, ticker) key, for a caller holding the manager badge
    /// (`badge_resource`).
    pub fn view_managed_index_funds(&self, badge_resource: u64) -> (r: Result<
        Vec<((String, String), u64)>,
        DashboardError,
    >)
        ensures
            badge_resource != self.fund_manager_resource ==> r == Err::<
                Vec<((String, String), u64)>,
                DashboardError,
            >(DashboardError::Unauthorized),
            badge_resource == self.fund_manager_resource ==> r is Ok && fund_keys(r->Ok_0@)
                == fund_keys(self.manager.managed_index_funds@),
    {
        if badge_resource != self.fund_manager_resource {
            return Err(DashboardError::Unauthorized);
        }
        let v = &self.manager.managed_index_funds;
        let mut out: Vec<((String, String), u64)> = Vec::new();
        let mut i: usize = 0;
        while i < v.len()
            invariant
                i <= v@.len(),
                out@.len() == i,
                forall|j: int|
                    0 <= j < i ==> (#[trigger] out@[j]).0.0@ == v@[j].0.0@ && out@[j].0.1@
                        == v@[j].0.1@ && out@[j].1 == v@[j].1,
            decreases v@.len() - i,
        {
            let e = &v[i];
            out.push(((e.0.0.clone(), e.0.1.clone()), e.1));
            i = i + 1;
        }
        assert(fund_keys(out@) =~= fund_keys(v@));
        Ok(out)
    }

    /// The debt funds this dashboard's manager runs, as (asset, component)
    /// pairs, for a caller holding the manager badge (`badge_resource`).
    pub fn view_managed_debt_funds(&self, badge_resource: u64) -> (r: Result<
        Vec<(u64, u64)>,
        DashboardError,
    >)
        ensures
            badge_resource != self.fund_manager_resource ==> r == Err::<
                Vec<(u64, u64)>,
                DashboardError,
            >(DashboardError::Unauthorized),
            badge_resource == self.fund_manager_resource ==> r is Ok && r->Ok_0@
                == self.manager.managed_debt_funds@,
    {
        if badge_resource != self.fund_manager_resource {
            return Err(DashboardError::Unauthorized);
        }
        let v = &self.manager.managed_debt_funds;
        let mut out: Vec<(u64, u64)> = Vec::new();
        let mut i: usize = 0;
        while i < v.len()
            invariant
                i <= v@.len(),
                out@ == v@.subrange(0, i as int),
            decreases v@.len() - i,
        {
            out.push(v[i]);
            i = i + 1;
        }
        Ok(out)
    }
}

} // verus!
