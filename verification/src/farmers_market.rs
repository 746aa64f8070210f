//! The farmers' market registry: the onboarding, loan request and fund
//! directories of the fund manager platform (see `maple_finance`), with
//! farmers in the place of fund managers, plus debt funds listed by name,
//! the fund each tracking token belongs to, and the investor dashboard.
//!
//! A request that fails a check or overflows is refused here with
//! an error and leaves the registry unchanged.
use vstd::prelude::*;
use crate::structs::{UserType, RequestStatus};
use crate::maple_finance::{
    MapleFinance,
    RegistryError,
    pending_has,
    pending_index,
    temp_in,
    temp_index,
    requests_of,
};
use crate::registry::{find_name, find_id};

verus! {

/// The registry's tables.
#[derive(Debug)]
pub struct FarmersMarket {
    /// Onboarding, loan requests, funding lockers and index funds; farmers
    /// are approved as its fund managers.
    pub registry: MapleFinance,
    /// (fund name, debt fund).
    pub debt_funds: Vec<(String, u64)>,
    /// (tracking token, name of the fund that issues it).
    pub tracking_tokens: Vec<(u64, String)>,
    pub price_oracle_address: u64,
    pub investor_dashboard_address: Option<u64>,
}

/// Whether a name is listed in a table keyed by names.
pub open spec fn name_listed(s: Seq<(String, u64)>, name: Seq<char>) -> bool {
    exists|i: int| 0 <= i < s.len() && #[trigger] s[i].0@ == name
}

/// Whether a token is listed in the tracking token table.
pub open spec fn token_listed(s: Seq<(u64, String)>, token: u64) -> bool {
    exists|i: int| 0 <= i < s.len() && #[trigger] s[i].0 == token
}

/// The first row of a name-keyed table with `name`.
pub open spec fn name_row(s: Seq<(String, u64)>, name: Seq<char>) -> int {
    choose|i: int|
        0 <= i < s.len() && s[i].0@ == name && forall|j: int| 0 <= j < i ==> #[trigger] s[j].0@ != name
}

/// The first row of the tracking token table with `token`.
pub open spec fn token_row(s: Seq<(u64, String)>, token: u64) -> int {
    choose|i: int|
        0 <= i < s.len() && s[i].0 == token && forall|j: int| 0 <= j < i ==> #[trigger] s[j].0 != token
}

/// The debt fund the market lists under `name` (its first row), or
/// `NotFound`.
pub open spec fn debt_fund_of(m: FarmersMarket, name: Seq<char>) -> Result<u64, RegistryError> {
    if name_listed(m.debt_funds@, name) {
        Ok(m.debt_funds@[name_row(m.debt_funds@, name)].1)
    } else {
        Err(RegistryError::NotFound)
    }
}

/// The name of the fund that issues the tracking token `token` (its first
/// row), if the market lists it.
pub open spec fn tracking_fund_of(m: FarmersMarket, token: u64) -> Option<Seq<char>> {
    if token_listed(m.tracking_tokens@, token) {
        Some(m.tracking_tokens@[token_row(m.tracking_tokens@, token)].1@)
    } else {
        None
    }
}

/// The first row of the tracking token table with `token`.
fn find_token(v: &Vec<(u64, String)>, token: u64) -> (r: Option<usize>)
    ensures
        r matches Some(i) ==> i < v@.len() && v@[i as int].0 == token && forall|j: int|
            0 <= j < i ==> #[trigger] v@[j].0 != token,
        r is None ==> !token_listed(v@, token),
{
    let mut i: usize = 0;
    while i < v.len()
        invariant
            0 <= i <= v@.len(),
            forall|j: int| 0 <= j < i ==> #[trigger] v@[j].0 != token,
        decreases v@.len() - i,
    {
        if v[i].0 == token {
            return Some(i);
        }
        i = i + 1;
    }
    None
}

impl FarmersMarket {
    /// An empty registry for the given admin badge, resources and price
    /// oracle; badge ids are issued from one.
    pub fn new(
        admin_badge: u64,
        temporary_badge_resource: u64,
        borrower_resource: u64,
        loan_request_resource: u64,
        price_oracle_address: u64,
    ) -> (r: FarmersMarket)
        ensures
            r.registry.admin_badge == admin_badge,
            r.registry.temporary_badge_resource == temporary_badge_resource,
            r.registry.borrower_resource == borrower_resource,
            r.registry.loan_request_resource == loan_request_resource,
            r.registry.next_id == 1,
            r.registry.pending_approvals@.len() == 0 && r.registry.temporary_badges@.len() == 0,
            r.registry.approvals@.len() == 0 && r.registry.borrowers@.len() == 0,
            r.registry.fund_manager_badge_vault@.len() == 0
                && r.registry.borrower_badge_vault@.len() == 0,
            r.registry.fund_manager_dashboards@.len() == 0
                && r.registry.borrower_dashboards@.len() == 0,
            r.registry.loan_request_vaults@.len() == 0 && r.registry.loan_requests@.len() == 0,
            r.registry.funding_lockers@.len() == 0 && r.registry.debt_funds@.len() == 0,
            r.registry.index_funds@.len() == 0 && r.registry.index_fund_names@.len() == 0,
            r.registry.maple_finance_global_address is None,
            r.debt_funds@.len() == 0 && r.tracking_tokens@.len() == 0,
            r.price_oracle_address == price_oracle_address,
            r.investor_dashboard_address is None,
    {
        FarmersMarket {
            registry: MapleFinance::new(
                admin_badge,
                temporary_badge_resource,
                borrower_resource,
                loan_request_resource,
            ),
            debt_funds: Vec::new(),
            tracking_tokens: Vec::new(),
            price_oracle_address,
            investor_dashboard_address: None,
        }
    }

    /// This registry's own address, once set.
    pub fn view_component_address(&self) -> (r: Option<u64>)
        ensures
            r == self.registry.maple_finance_global_address,
    {
        self.registry.maple_finance_global_address
    }

    /// Records the investor dashboard `address` (the proof must be the
    /// platform admin's badge) and returns it.
    pub fn new_investor_dashboard(&mut self, admin_proof: u64, address: u64) -> (r: Result<
        u64,
        RegistryError,
    >)
        ensures
            r is Ok <==> admin_proof == old(self).registry.admin_badge,
            r is Err ==> r == Err::<u64, RegistryError>(RegistryError::Unauthorized) && *final(self)
                == *old(self),
            r is Ok ==> r == Ok::<u64, RegistryError>(address) && *final(self) == (FarmersMarket {
                investor_dashboard_address: Some(address),
                ..*old(self)
            }),
    {
        if admin_proof != self.registry.admin_badge {
            return Err(RegistryError::Unauthorized);
        }
        self.investor_dashboard_address = Some(address);
        Ok(address)
    }

    /// Approves a farmer pending under `name` (the proof must be the
    /// platform admin's badge): the new farmer badge waits in the registry
    /// to be claimed, is recorded among the borrowers (as fund managers
    /// are), and gets the dashboard `dashboard`. Returns the dashboard.
    pub fn create_farmer(&mut self, admin_proof: u64, name: &String, dashboard: u64) -> (r: Result<
        u64,
        RegistryError,
    >)
        ensures
            ({
                let o = old(self).registry;
                let pi = pending_index(o.pending_approvals@, name@);
                let t = o.pending_approvals@[pi].1;
                let ti = temp_index(o.temporary_badges@, t);
                let ok = admin_proof == o.admin_badge && pending_has(o.pending_approvals@, name@)
                    && temp_in(o.temporary_badges@, t) && o.temporary_badges@[ti].1
                    == UserType::FundManager && o.next_id < u64::MAX;
                &&& admin_proof != o.admin_badge ==> r == Err::<u64, RegistryError>(
                    RegistryError::Unauthorized,
                )
                &&& admin_proof == o.admin_badge && !pending_has(o.pending_approvals@, name@) ==> r
                    == Err::<u64, RegistryError>(RegistryError::NotPending)
                &&& admin_proof == o.admin_badge && pending_has(o.pending_approvals@, name@)
                    && temp_in(o.temporary_badges@, t) && o.temporary_badges@[ti].1
                    != UserType::FundManager ==> r == Err::<u64, RegistryError>(
                    RegistryError::WrongUserType,
                )
                &&& r is Ok <==> ok
                &&& r is Err ==> *final(self) == *old(self)
                &&& r matches Ok(a) ==> {
                    let b = o.next_id;
                    &&& a == dashboard
                    &&& final(self).registry.next_id == b + 1
                    &&& final(self).registry.temporary_badges@ == o.temporary_badges@.update(
                        ti,
                        (t, UserType::FundManager, RequestStatus::Approved),
                    )
                    &&& final(self).registry.approvals@ == o.approvals@.push((t, b))
                    &&& final(self).registry.pending_approvals@ == o.pending_approvals@.remove(pi)
                    &&& final(self).registry.borrowers@ == o.borrowers@.push(b)
                    &&& final(self).registry.fund_manager_dashboards@
                        == o.fund_manager_dashboards@.push((b, dashboard))
                    &&& final(self).registry.fund_manager_badge_vault@
                        == o.fund_manager_badge_vault@.push(b)
                    &&& final(self).registry == (MapleFinance {
                        next_id: final(self).registry.next_id,
                        temporary_badges: final(self).registry.temporary_badges,
                        approvals: final(self).registry.approvals,
                        pending_approvals: final(self).registry.pending_approvals,
                        borrowers: final(self).registry.borrowers,
                        fund_manager_dashboards: final(self).registry.fund_manager_dashboards,
                        fund_manager_badge_vault: final(self).registry.fund_manager_badge_vault,
                        ..o
                    })
                    &&& *final(self) == (FarmersMarket { registry: final(self).registry, ..*old(self) })
                }
            }),
    {
        self.registry.create_fund_manager(admin_proof, name, dashboard)
    }

    /// Puts the loan request `nft_id` (of resource `nft_resource`) back in
    /// the vault of its borrower `borrower_id`. Refused for another
    /// resource, or when the borrower has no loan request vault.
    pub fn return_loan_request_nft(&mut self, nft_resource: u64, borrower_id: u64, nft_id: u64) -> (r:
        Result<(), RegistryError>)
        ensures
            nft_resource != old(self).registry.loan_request_resource ==> r == Err::<(), RegistryError>(
                RegistryError::WrongBadge,
            ),
            nft_resource == old(self).registry.loan_request_resource && !old(
                self,
            ).registry.loan_request_vaults@.contains(borrower_id) ==> r == Err::<(), RegistryError>(
                RegistryError::NoLoanRequests,
            ),
            r is Ok <==> nft_resource == old(self).registry.loan_request_resource && old(
                self,
            ).registry.loan_request_vaults@.contains(borrower_id),
            r is Err ==> *final(self) == *old(self),
            r is Ok ==> final(self).registry.loan_requests@ == old(self).registry.loan_requests@.push(
                (borrower_id, nft_id),
            ) && final(self).registry == (MapleFinance {
                loan_requests: final(self).registry.loan_requests,
                ..old(self).registry
            }) && *final(self) == (FarmersMarket { registry: final(self).registry, ..*old(self) }),
    {
        if nft_resource != self.registry.loan_request_resource {
            return Err(RegistryError::WrongBadge);
        }
        if find_id(&self.registry.loan_request_vaults, borrower_id).is_none() {
            return Err(RegistryError::NoLoanRequests);
        }
        self.registry.loan_requests.push((borrower_id, nft_id));
        Ok(())
    }

    /// Each borrower with a loan request vault and the loan requests in it,
    /// in the order the vaults were opened.
    pub fn loan_request_list(&self) -> (r: Vec<(u64, Vec<u64>)>)
        ensures
            r@.len() == self.registry.loan_request_vaults@.len(),
            forall|i: int|
                0 <= i < r@.len() ==> #[trigger] r@[i].0 == self.registry.loan_request_vaults@[i]
                    && r@[i].1@ == requests_of(
                    self.registry.loan_requests@,
                    self.registry.loan_request_vaults@[i],
                    self.registry.loan_requests@.len() as int,
                ),
    {
        let vaults = &self.registry.loan_request_vaults;
        let reqs = &self.registry.loan_requests;
        let mut out: Vec<(u64, Vec<u64>)> = Vec::new();
        let mut i: usize = 0;
        while i < vaults.len()
            invariant
                0 <= i <= vaults@.len(),
                out@.len() == i,
                forall|k: int|
                    0 <= k < i ==> #[trigger] out@[k].0 == vaults@[k] && out@[k].1@ == requests_of(
                        reqs@,
                        vaults@[k],
                        reqs@.len() as int,
                    ),
            decreases vaults@.len() - i,
        {
            let b = vaults[i];
            let mut ids: Vec<u64> = Vec::new();
            let mut j: usize = 0;
            while j < reqs.len()
                invariant
                    0 <= j <= reqs@.len(),
                    ids@ == requests_of(reqs@, b, j as int),
                decreases reqs@.len() - j,
            {
                if reqs[j].0 == b {
                    ids.push(reqs[j].1);
                }
                j = j + 1;
            }
            assert(ids@ == requests_of(reqs@, b, reqs@.len() as int));
            let ghost before = out@;
            out.push((b, ids));
            proof {
                assert forall|k: int| 0 <= k < i + 1 implies #[trigger] out@[k].0 == vaults@[k]
                    && out@[k].1@ == requests_of(reqs@, vaults@[k], reqs@.len() as int) by {
                    if k < i {
                        assert(out@[k] == before[k]);
                        assert(before[k].0 == vaults@[k] && before[k].1@ == requests_of(
                            reqs@,
                            vaults@[k],
                            reqs@.len() as int,
                        ));
                    } else {
                        assert(b == vaults@[i as int]);
                        assert(out@[k] == (b, ids));
                    }
                }
            }
            i = i + 1;
        }
        out
    }

    /// Lists the debt fund `address` under `fund_name`; refused when the
    /// name is taken.
    pub fn insert_debt_fund(&mut self, fund_name: String, address: u64) -> (r: Result<
        (),
        RegistryError,
    >)
        ensures
            r is Ok <==> !name_listed(old(self).debt_funds@, fund_name@),
            r is Err ==> r == Err::<(), RegistryError>(RegistryError::AlreadyExists) && *final(self)
                == *old(self),
            r is Ok ==> final(self).debt_funds@ == old(self).debt_funds@.push((fund_name, address))
                && *final(self) == (FarmersMarket { debt_funds: final(self).debt_funds, ..*old(self) }),
    {
        if find_name(&self.debt_funds, &fund_name).is_some() {
            return Err(RegistryError::AlreadyExists);
        }
        self.debt_funds.push((fund_name, address));
        Ok(())
    }

    /// The debt funds listed, by name.
    pub fn debt_fund_list(&self) -> (r: Vec<(String, u64)>)
        ensures
            r@.len() == self.debt_funds@.len(),
            forall|i: int|
                0 <= i < r@.len() ==> #[trigger] r@[i].0@ == self.debt_funds@[i].0@ && r@[i].1
                    == self.debt_funds@[i].1,
    {
        let mut out: Vec<(String, u64)> = Vec::new();
        let mut i: usize = 0;
        while i < self.debt_funds.len()
            invariant
                0 <= i <= self.debt_funds@.len(),
                out@.len() == i,
                forall|k: int|
                    0 <= k < i ==> #[trigger] out@[k].0@ == self.debt_funds@[k].0@ && out@[k].1
                        == self.debt_funds@[k].1,
            decreases self.debt_funds@.len() - i,
        {
            let name = self.debt_funds[i].0.clone();
            out.push((name, self.debt_funds[i].1));
            i = i + 1;
        }
        out
    }

    /// The debt fund listed under `fund_name`; refused when none is.
    pub fn get_debt_fund(&self, fund_name: &String) -> (r: Result<u64, RegistryError>)
        ensures
            r == debt_fund_of(*self, fund_name@),
    {
        match find_name(&self.debt_funds, fund_name) {
            Some(i) => {
                let ghost k = name_row(self.debt_funds@, fund_name@);
                assert(self.debt_funds@[i as int].0@ == fund_name@);
                assert(k == i as int) by {
                    if k < i {
                        assert(self.debt_funds@[k].0@ != fund_name@);
                    } else if k > i {
                        assert(self.debt_funds@[i as int].0@ != fund_name@);
                    }
                }
                Ok(self.debt_funds[i].1)
            },
            None => Err(RegistryError::NotFound),
        }
    }

    /// Records that the tracking token `token` belongs to the fund
    /// `fund_name`; refused when the token is recorded.
    pub fn insert_tracking_tokens(&mut self, token: u64, fund_name: String) -> (r: Result<
        (),
        RegistryError,
    >)
        ensures
            r is Ok <==> !token_listed(old(self).tracking_tokens@, token),
            r is Err ==> r == Err::<(), RegistryError>(RegistryError::AlreadyExists) && *final(self)
                == *old(self),
            r is Ok ==> final(self).tracking_tokens@ == old(self).tracking_tokens@.push(
                (token, fund_name),
            ) && *final(self) == (FarmersMarket {
                tracking_tokens: final(self).tracking_tokens,
                ..*old(self)
            }),
    {
        if find_token(&self.tracking_tokens, token).is_some() {
            return Err(RegistryError::AlreadyExists);
        }
        self.tracking_tokens.push((token, fund_name));
        Ok(())
    }

    /// The name of the fund the tracking token `token` belongs to; refused
    /// when the token is not recorded.
    pub fn get_tracking_tokens_mapping(&self, token: u64) -> (r: Result<String, RegistryError>)
        ensures
            r is Ok <==> tracking_fund_of(*self, token) is Some,
            r is Err ==> r == Err::<String, RegistryError>(RegistryError::NotFound),
            r matches Ok(name) ==> Some(name@) == tracking_fund_of(*self, token),
    {
        match find_token(&self.tracking_tokens, token) {
            Some(i) => {
                let ghost k = token_row(self.tracking_tokens@, token);
                assert(self.tracking_tokens@[i as int].0 == token);
                assert(k == i as int) by {
                    if k < i {
                        assert(self.tracking_tokens@[k].0 != token);
                    } else if k > i {
                        assert(self.tracking_tokens@[i as int].0 != token);
                    }
                }
                Ok(self.tracking_tokens[i].1.clone())
            },
            None => Err(RegistryError::NotFound),
        }
    }
}

} // verus!
