//! The platform registry: onboarding of fund managers and borrowers (a
//! temporary badge is requested under a name, approved by the platform
//! admin, then exchanged for the role's badge), the borrowers' loan request
//! vaults, and the directories of funding lockers, debt funds and index
//! funds.
//!
//! Badges and components are identified by ids; new badge ids are issued
//! in sequence. A request that fails a check or overflows is
//! refused here with an error and leaves the registry unchanged.
use vstd::prelude::*;
use crate::structs::{UserType, RequestStatus};
use crate::registry::{find_name, find_key, find_id, find_pair, find_first};
use crate::utils::{sort_string, lex_gt};

verus! {

/// Why the registry refused a request.
#[derive(Clone, Copy, Debug, PartialEq, Eq, Structural)]
pub enum RegistryError {
    /// The proof is not the platform admin's badge.
    Unauthorized,
    /// A request under this name is already pending.
    NameTaken,
    /// No request is pending under this name.
    NotPending,
    /// The request is for another role.
    WrongUserType,
    /// The badge or token is not of this platform's resource.
    WrongBadge,
    /// The badge is not in the registry.
    BadgeMissing,
    /// The request has not been approved.
    NotApproved,
    /// The borrower has no loan request vault.
    NoLoanRequests,
    /// The vault does not hold this loan request.
    LoanRequestMissing,
    /// The key is already registered.
    AlreadyExists,
    /// The key is not registered.
    NotFound,
    /// No index fund has this name.
    NoFundName,
    /// No badge id is left to issue.
    IdsExhausted,
}

/// The registry's tables.
#[derive(Debug)]
pub struct MapleFinance {
    /// The platform admin's badge resource.
    pub admin_badge: u64,
    pub temporary_badge_resource: u64,
    pub borrower_resource: u64,
    pub loan_request_resource: u64,
    /// The next badge id to issue.
    pub next_id: u64,
    /// Requests awaiting approval: (name, temporary badge id).
    pub pending_approvals: Vec<(String, u64)>,
    /// Temporary badges issued: (id, role asked for, status).
    pub temporary_badges: Vec<(u64, UserType, RequestStatus)>,
    /// Approved requests: (temporary badge id, role badge id).
    pub approvals: Vec<(u64, u64)>,
    /// Fund manager badges waiting to be claimed.
    pub fund_manager_badge_vault: Vec<u64>,
    /// Borrower badges waiting to be claimed.
    pub borrower_badge_vault: Vec<u64>,
    /// Badge ids recorded as borrowers.
    pub borrowers: Vec<u64>,
    /// (fund manager badge id, dashboard).
    pub fund_manager_dashboards: Vec<(u64, u64)>,
    /// (borrower badge id, dashboard).
    pub borrower_dashboards: Vec<(u64, u64)>,
    /// Borrowers with a loan request vault.
    pub loan_request_vaults: Vec<u64>,
    /// Loan requests deposited: (borrower badge id, loan request id).
    pub loan_requests: Vec<(u64, u64)>,
    /// (loan id, funding locker).
    pub funding_lockers: Vec<(u64, u64)>,
    /// (fund manager badge id, debt fund).
    pub debt_funds: Vec<(u64, u64)>,
    /// ((name, ticker) sorted by `sort_string`, index fund).
    pub index_funds: Vec<((String, String), u64)>,
    /// (fund name, ticker).
    pub index_fund_names: Vec<(String, String)>,
    /// This registry's own address, once set.
    pub maple_finance_global_address: Option<u64>,
}

/// Whether a name is pending.
pub open spec fn pending_has(s: Seq<(String, u64)>, name: Seq<char>) -> bool {
    exists|i: int| 0 <= i < s.len() && #[trigger] s[i].0@ == name
}

/// The first index of `name` among the pending requests.
pub open spec fn pending_index(s: Seq<(String, u64)>, name: Seq<char>) -> int {
    choose|i: int|
        0 <= i < s.len() && s[i].0@ == name && forall|j: int| 0 <= j < i ==> #[trigger] s[j].0@ != name
}

/// Whether a key is in a table of pairs.
pub open spec fn key_in(s: Seq<(u64, u64)>, key: u64) -> bool {
    exists|i: int| 0 <= i < s.len() && #[trigger] s[i].0 == key
}

/// The first index of `key` in a table of pairs.
pub open spec fn key_index(s: Seq<(u64, u64)>, key: u64) -> int {
    choose|i: int| 0 <= i < s.len() && s[i].0 == key && forall|j: int| 0 <= j < i ==> #[trigger] s[j].0 != key
}

/// Whether an index fund name is recorded.
pub open spec fn name_in(s: Seq<(String, String)>, name: Seq<char>) -> bool {
    exists|i: int| 0 <= i < s.len() && #[trigger] s[i].0@ == name
}

/// The first index of an index fund name.
pub open spec fn name_index(s: Seq<(String, String)>, name: Seq<char>) -> int {
    choose|i: int|
        0 <= i < s.len() && s[i].0@ == name && forall|j: int| 0 <= j < i ==> #[trigger] s[j].0@ != name
}

/// The key an index fund is registered under: its name and ticker, the
/// one `lex_gt` puts after the other first.
pub open spec fn fund_key(name: Seq<char>, ticker: Seq<char>) -> (Seq<char>, Seq<char>) {
    if lex_gt(name, ticker) {
        (name, ticker)
    } else {
        (ticker, name)
    }
}

/// Whether an index fund is registered under the key `(a, b)`.
pub open spec fn key_pair_in(s: Seq<((String, String), u64)>, a: Seq<char>, b: Seq<char>) -> bool {
    exists|i: int| 0 <= i < s.len() && #[trigger] s[i].0.0@ == a && s[i].0.1@ == b
}

/// The first index of the key `(a, b)` among the registered index funds.
pub open spec fn key_pair_index(s: Seq<((String, String), u64)>, a: Seq<char>, b: Seq<char>) -> int {
    choose|i: int|
        0 <= i < s.len() && s[i].0.0@ == a && s[i].0.1@ == b && forall|j: int|
            0 <= j < i ==> !(#[trigger] s[j].0.0@ == a && s[j].0.1@ == b)
}

/// The registry's answer for the index fund named `name`: the fund under
/// the key of the name's first record; `NoFundName` for an unknown name
/// and `NotFound` when no fund has that key.
pub open spec fn index_fund_of(r: MapleFinance, name: Seq<char>) -> Result<u64, RegistryError> {
    if !name_in(r.index_fund_names@, name) {
        Err(RegistryError::NoFundName)
    } else {
        let k = fund_key(name, r.index_fund_names@[name_index(r.index_fund_names@, name)].1@);
        if !key_pair_in(r.index_funds@, k.0, k.1) {
            Err(RegistryError::NotFound)
        } else {
            Ok(r.index_funds@[key_pair_index(r.index_funds@, k.0, k.1)].1)
        }
    }
}

/// Whether a temporary badge id is recorded.
pub open spec fn temp_in(s: Seq<(u64, UserType, RequestStatus)>, id: u64) -> bool {
    exists|i: int| 0 <= i < s.len() && #[trigger] s[i].0 == id
}

/// The first index of a temporary badge id.
pub open spec fn temp_index(s: Seq<(u64, UserType, RequestStatus)>, id: u64) -> int {
    choose|i: int| 0 <= i < s.len() && s[i].0 == id && forall|j: int| 0 <= j < i ==> #[trigger] s[j].0 != id
}

/// The loan request ids deposited for `borrower` among the first `n`.
pub open spec fn requests_of(s: Seq<(u64, u64)>, borrower: u64, n: int) -> Seq<u64>
    decreases n,
{
    if n <= 0 {
        Seq::empty()
    } else if s[n - 1].0 == borrower {
        requests_of(s, borrower, n - 1).push(s[n - 1].1)
    } else {
        requests_of(s, borrower, n - 1)
    }
}

/// The first index of a temporary badge id, if any.
fn find_temp(v: &Vec<(u64, UserType, RequestStatus)>, id: u64) -> (r: Option<usize>)
    ensures
        r matches Some(i) ==> i < v@.len() && i == temp_index(v@, id) && temp_in(v@, id),
        r is None ==> !temp_in(v@, id),
{
    let mut i: usize = 0;
    while i < v.len()
        invariant
            0 <= i <= v@.len(),
            forall|j: int| 0 <= j < i ==> #[trigger] v@[j].0 != id,
        decreases v@.len() - i,
    {
        if v[i].0 == id {
            assert(v@[i as int].0 == id);
            let ghost k = temp_index(v@, id);
            assert(k == i as int) by {
                if k < i {
                    assert(v@[k].0 != id);
                } else if k > i {
                    assert(v@[i as int].0 != id);
                }
            }
            return Some(i);
        }
        i = i + 1;
    }
    None
}

/// The first pending index of `name`, if any.
fn find_pending(v: &Vec<(String, u64)>, name: &String) -> (r: Option<usize>)
    ensures
        r matches Some(i) ==> i < v@.len() && i == pending_index(v@, name@) && pending_has(v@, name@),
        r is None ==> !pending_has(v@, name@),
{
    match find_name(v, name) {
        Some(i) => {
            assert(v@[i as int].0@ == name@);
            let ghost k = pending_index(v@, name@);
            assert(k == i as int) by {
                if k < i {
                    assert(v@[k].0@ != name@);
                } else if k > i {
                    assert(v@[i as int].0@ != name@);
                }
            }
            Some(i)
        },
        None => None,
    }
}

/// The first index of `key` in a table of pairs, if any.
fn find_entry(v: &Vec<(u64, u64)>, key: u64) -> (r: Option<usize>)
    ensures
        r matches Some(i) ==> i < v@.len() && i == key_index(v@, key) && key_in(v@, key),
        r is None ==> !key_in(v@, key),
{
    match find_key(v, key) {
        Some(i) => {
            assert(v@[i as int].0 == key);
            let ghost k = key_index(v@, key);
            assert(k == i as int) by {
                if k < i {
                    assert(v@[k].0 != key);
                } else if k > i {
                    assert(v@[i as int].0 != key);
                }
            }
            Some(i)
        },
        None => None,
    }
}

impl MapleFinance {
    /// An empty registry for the given admin badge and resources; badge
    /// ids are issued from one.
    pub fn new(
        admin_badge: u64,
        temporary_badge_resource: u64,
        borrower_resource: u64,
        loan_request_resource: u64,
    ) -> (r: MapleFinance)
        ensures
            r.admin_badge == admin_badge,
            r.temporary_badge_resource == temporary_badge_resource,
            r.borrower_resource == borrower_resource,
            r.loan_request_resource == loan_request_resource,
            r.next_id == 1,
            r.pending_approvals@.len() == 0 && r.temporary_badges@.len() == 0,
            r.approvals@.len() == 0 && r.borrowers@.len() == 0,
            r.fund_manager_badge_vault@.len() == 0 && r.borrower_badge_vault@.len() == 0,
            r.fund_manager_dashboards@.len() == 0 && r.borrower_dashboards@.len() == 0,
            r.loan_request_vaults@.len() == 0 && r.loan_requests@.len() == 0,
            r.funding_lockers@.len() == 0 && r.debt_funds@.len() == 0,
            r.index_funds@.len() == 0 && r.index_fund_names@.len() == 0,
            r.maple_finance_global_address is None,
    {
        MapleFinance {
            admin_badge,
            temporary_badge_resource,
            borrower_resource,
            loan_request_resource,
            next_id: 1,
            pending_approvals: Vec::new(),
            temporary_badges: Vec::new(),
            approvals: Vec::new(),
            fund_manager_badge_vault: Vec::new(),
            borrower_badge_vault: Vec::new(),
            borrowers: Vec::new(),
            fund_manager_dashboards: Vec::new(),
            borrower_dashboards: Vec::new(),
            loan_request_vaults: Vec::new(),
            loan_requests: Vec::new(),
            funding_lockers: Vec::new(),
            debt_funds: Vec::new(),
            index_funds: Vec::new(),
            index_fund_names: Vec::new(),
            maple_finance_global_address: None,
        }
    }

    /// Records this registry's own address.
    pub fn set_address(&mut self, address: u64)
        ensures
            final(self).maple_finance_global_address == Some(address),
            final(self).pending_approvals == old(self).pending_approvals,
            final(self).next_id == old(self).next_id,
    {
        self.maple_finance_global_address = Some(address);
    }

    /// Requests the role `user_type` under `name`: issues a temporary badge
    /// whose request is pending. Refused while a request under that name is
    /// pending. Returns the temporary badge's id.
    pub fn create_temporary_badge(&mut self, name: String, user_type: UserType) -> (r: Result<
        u64,
        RegistryError,
    >)
        ensures
            pending_has(old(self).pending_approvals@, name@) ==> r == Err::<u64, RegistryError>(
                RegistryError::NameTaken,
            ),
            !pending_has(old(self).pending_approvals@, name@) && old(self).next_id == u64::MAX ==> r
                == Err::<u64, RegistryError>(RegistryError::IdsExhausted),
            r is Ok <==> !pending_has(old(self).pending_approvals@, name@) && old(self).next_id
                < u64::MAX,
            r is Err ==> *final(self) == *old(self),
            r matches Ok(id) ==> {
                &&& id == old(self).next_id
                &&& final(self).next_id == id + 1
                &&& final(self).pending_approvals@ == old(self).pending_approvals@.push((name, id))
                &&& final(self).temporary_badges@ == old(self).temporary_badges@.push(
                    (id, user_type, RequestStatus::Pending),
                )
                &&& *final(self) == (MapleFinance {
                    next_id: final(self).next_id,
                    pending_approvals: final(self).pending_approvals,
                    temporary_badges: final(self).temporary_badges,
                    ..*old(self)
                })
            },
    {
        if find_pending(&self.pending_approvals, &name).is_some() {
            return Err(RegistryError::NameTaken);
        }
        if self.next_id == u64::MAX {
            return Err(RegistryError::IdsExhausted);
        }
        let id = self.next_id;
        self.next_id = id + 1;
        self.pending_approvals.push((name, id));
        self.temporary_badges.push((id, user_type, RequestStatus::Pending));
        Ok(id)
    }

    /// Approves the request pending under `name` for the role `role`:
    /// marks its temporary badge approved, issues the role's badge, records
    /// the approval and clears the pending request. Returns the temporary
    /// badge's id and the new badge's id.
    fn approve(&mut self, admin_proof: u64, name: &String, role: UserType) -> (r: Result<
        (u64, u64),
        RegistryError,
    >)
        ensures
            ({
                let o = *old(self);
                let pi = pending_index(o.pending_approvals@, name@);
                let t = o.pending_approvals@[pi].1;
                let ti = temp_index(o.temporary_badges@, t);
                &&& admin_proof != o.admin_badge ==> r == Err::<(u64, u64), RegistryError>(
                    RegistryError::Unauthorized,
                )
                &&& admin_proof == o.admin_badge && !pending_has(o.pending_approvals@, name@) ==> r
                    == Err::<(u64, u64), RegistryError>(RegistryError::NotPending)
                &&& admin_proof == o.admin_badge && pending_has(o.pending_approvals@, name@)
                    && !temp_in(o.temporary_badges@, t) ==> r == Err::<(u64, u64), RegistryError>(
                    RegistryError::BadgeMissing,
                )
                &&& admin_proof == o.admin_badge && pending_has(o.pending_approvals@, name@)
                    && temp_in(o.temporary_badges@, t) && o.temporary_badges@[ti].1 != role ==> r
                    == Err::<(u64, u64), RegistryError>(RegistryError::WrongUserType)
                &&& r is Ok <==> admin_proof == o.admin_badge && pending_has(
                    o.pending_approvals@,
                    name@,
                ) && temp_in(o.temporary_badges@, t) && o.temporary_badges@[ti].1 == role
                    && o.next_id < u64::MAX
                &&& r is Err ==> *final(self) == o
                &&& r matches Ok(x) ==> {
                    &&& x == (t, o.next_id)
                    &&& final(self).next_id == o.next_id + 1
                    &&& final(self).temporary_badges@ == o.temporary_badges@.update(
                        ti,
                        (t, role, RequestStatus::Approved),
                    )
                    &&& final(self).approvals@ == o.approvals@.push((t, o.next_id))
                    &&& final(self).pending_approvals@ == o.pending_approvals@.remove(pi)
                    &&& *final(self) == (MapleFinance {
                        next_id: final(self).next_id,
                        temporary_badges: final(self).temporary_badges,
                        approvals: final(self).approvals,
                        pending_approvals: final(self).pending_approvals,
                        ..o
                    })
                }
            }),
    {
        if admin_proof != self.admin_badge {
            return Err(RegistryError::Unauthorized);
        }
        let pi = match find_pending(&self.pending_approvals, name) {
            Some(i) => i,
            None => {
                return Err(RegistryError::NotPending);
            },
        };
        let t = self.pending_approvals[pi].1;
        let ti = match find_temp(&self.temporary_badges, t) {
            Some(i) => i,
            None => {
                return Err(RegistryError::BadgeMissing);
            },
        };
        if self.temporary_badges[ti].1 != role {
            return Err(RegistryError::WrongUserType);
        }
        if self.next_id == u64::MAX {
            return Err(RegistryError::IdsExhausted);
        }
        let badge = self.next_id;
        self.next_id = badge + 1;
        self.temporary_badges.set(ti, (t, role, RequestStatus::Approved));
        self.approvals.push((t, badge));
        self.pending_approvals.remove(pi);
        Ok((t, badge))
    }

    /// Approves a fund manager pending under `name` (the proof must be the
    /// platform admin's badge): the new fund manager badge waits in the
    /// registry to be claimed, is recorded among the borrowers (the
    /// registry keeps no separate list of managers), and gets the dashboard
    /// `dashboard`. Returns the dashboard.
    pub fn create_fund_manager(&mut self, admin_proof: u64, name: &String, dashboard: u64) -> (r:
        Result<u64, RegistryError>)
        ensures
            ({
                let o = *old(self);
                let pi = pending_index(o.pending_approvals@, name@);
                let t = o.pending_approvals@[pi].1;
                let ti = temp_index(o.temporary_badges@, t);
                let ok = admin_proof == o.admin_badge && pending_has(o.pending_approvals@, name@)
                    && temp_in(o.temporary_badges@, t) && o.temporary_badges@[ti].1
                    == UserType::FundManager && o.next_id < u64::MAX;
                &&& admin_proof != o.admin_badge ==> r == Err::<u64, RegistryError>(
                    RegistryError::Unauthorized,
                )
                &&& admin_proof == o.admin_badge && !pending_has(o.pending_approvals@, name@) ==> r
                    == Err::<u64, RegistryError>(RegistryError::NotPending)
                &&& admin_proof == o.admin_badge && pending_has(o.pending_approvals@, name@)
                    && temp_in(o.temporary_badges@, t) && o.temporary_badges@[ti].1
                    != UserType::FundManager ==> r == Err::<u64, RegistryError>(
                    RegistryError::WrongUserType,
                )
                &&& r is Ok <==> ok
                &&& r is Err ==> *final(self) == o
                &&& r matches Ok(a) ==> {
                    let b = o.next_id;
                    &&& a == dashboard
                    &&& final(self).next_id == b + 1
                    &&& final(self).temporary_badges@ == o.temporary_badges@.update(
                        ti,
                        (t, UserType::FundManager, RequestStatus::Approved),
                    )
                    &&& final(self).approvals@ == o.approvals@.push((t, b))
                    &&& final(self).pending_approvals@ == o.pending_approvals@.remove(pi)
                    &&& final(self).borrowers@ == o.borrowers@.push(b)
                    &&& final(self).fund_manager_dashboards@ == o.fund_manager_dashboards@.push(
                        (b, dashboard),
                    )
                    &&& final(self).fund_manager_badge_vault@ == o.fund_manager_badge_vault@.push(b)
                    &&& *final(self) == (MapleFinance {
                        next_id: final(self).next_id,
                        temporary_badges: final(self).temporary_badges,
                        approvals: final(self).approvals,
                        pending_approvals: final(self).pending_approvals,
                        borrowers: final(self).borrowers,
                        fund_manager_dashboards: final(self).fund_manager_dashboards,
                        fund_manager_badge_vault: final(self).fund_manager_badge_vault,
                        ..o
                    })
                }
            }),
    {
        let (_t, badge) = match self.approve(admin_proof, name, UserType::FundManager) {
            Ok(x) => x,
            Err(e) => {
                return Err(e);
            },
        };
        self.borrowers.push(badge);
        self.fund_manager_dashboards.push((badge, dashboard));
        self.fund_manager_badge_vault.push(badge);
        Ok(dashboard)
    }

    /// Approves a borrower pending under `name` (the proof must be the
    /// platform admin's badge): the new borrower badge waits in the
    /// registry to be claimed, is recorded among the borrowers, and gets
    /// the dashboard `dashboard`. Returns the dashboard.
    pub fn create_borrower(&mut self, admin_proof: u64, name: &String, dashboard: u64) -> (r: Result<
        u64,
        RegistryError,
    >)
        ensures
            ({
                let o = *old(self);
                let pi = pending_index(o.pending_approvals@, name@);
                let t = o.pending_approvals@[pi].1;
                let ti = temp_index(o.temporary_badges@, t);
                let ok = admin_proof == o.admin_badge && pending_has(o.pending_approvals@, name@)
                    && temp_in(o.temporary_badges@, t) && o.temporary_badges@[ti].1
                    == UserType::Borrower && o.next_id < u64::MAX;
                &&& admin_proof != o.admin_badge ==> r == Err::<u64, RegistryError>(
                    RegistryError::Unauthorized,
                )
                &&& admin_proof == o.admin_badge && !pending_has(o.pending_approvals@, name@) ==> r
                    == Err::<u64, RegistryError>(RegistryError::NotPending)
                &&& admin_proof == o.admin_badge && pending_has(o.pending_approvals@, name@)
                    && temp_in(o.temporary_badges@, t) && o.temporary_badges@[ti].1
                    != UserType::Borrower ==> r == Err::<u64, RegistryError>(
                    RegistryError::WrongUserType,
                )
                &&& r is Ok <==> ok
                &&& r is Err ==> *final(self) == o
                &&& r matches Ok(a) ==> {
                    let b = o.next_id;
                    &&& a == dashboard
                    &&& final(self).next_id == b + 1
                    &&& final(self).temporary_badges@ == o.temporary_badges@.update(
                        ti,
                        (t, UserType::Borrower, RequestStatus::Approved),
                    )
                    &&& final(self).approvals@ == o.approvals@.push((t, b))
                    &&& final(self).pending_approvals@ == o.pending_approvals@.remove(pi)
                    &&& final(self).borrowers@ == o.borrowers@.push(b)
                    &&& final(self).borrower_dashboards@ == o.borrower_dashboards@.push(
                        (b, dashboard),
                    )
                    &&& final(self).borrower_badge_vault@ == o.borrower_badge_vault@.push(b)
                    &&& *final(self) == (MapleFinance {
                        next_id: final(self).next_id,
                        temporary_badges: final(self).temporary_badges,
                        approvals: final(self).approvals,
                        pending_approvals: final(self).pending_approvals,
                        borrowers: final(self).borrowers,
                        borrower_dashboards: final(self).borrower_dashboards,
                        borrower_badge_vault: final(self).borrower_badge_vault,
                        ..o
                    })
                }
            }),
    {
        let (_t, badge) = match self.approve(admin_proof, name, UserType::Borrower) {
            Ok(x) => x,
            Err(e) => {
                return Err(e);
            },
        };
        self.borrowers.push(badge);
        self.borrower_dashboards.push((badge, dashboard));
        self.borrower_badge_vault.push(badge);
        Ok(dashboard)
    }

    /// Exchanges the temporary badge `temp_id` (of resource
    /// `badge_resource`) for the role badge its approval issued: the badge
    /// leaves the registry's vault, the approval is cleared and the
    /// temporary badge is burned. Returns the role badge.
    pub fn claim_badge(&mut self, badge_resource: u64, temp_id: u64) -> (r: Result<u64, RegistryError>)
        ensures
            ({
                let o = *old(self);
                let ti = temp_index(o.temporary_badges@, temp_id);
                let ai = key_index(o.approvals@, temp_id);
                let b = o.approvals@[ai].1;
                let fm = o.temporary_badges@[ti].1 == UserType::FundManager;
                let vault = if fm {
                    o.fund_manager_badge_vault@
                } else {
                    o.borrower_badge_vault@
                };
                &&& badge_resource != o.temporary_badge_resource ==> r == Err::<u64, RegistryError>(
                    RegistryError::WrongBadge,
                )
                &&& badge_resource == o.temporary_badge_resource && !temp_in(
                    o.temporary_badges@,
                    temp_id,
                ) ==> r == Err::<u64, RegistryError>(RegistryError::BadgeMissing)
                &&& badge_resource == o.temporary_badge_resource && temp_in(
                    o.temporary_badges@,
                    temp_id,
                ) && !key_in(o.approvals@, temp_id) ==> r == Err::<u64, RegistryError>(
                    RegistryError::NotApproved,
                )
                &&& r is Ok <==> badge_resource == o.temporary_badge_resource && temp_in(
                    o.temporary_badges@,
                    temp_id,
                ) && key_in(o.approvals@, temp_id) && vault.contains(b)
                &&& r is Err ==> *final(self) == o
                &&& r matches Ok(x) ==> {
                    &&& x == b
                    &&& final(self).approvals@ == o.approvals@.remove(ai)
                    &&& final(self).temporary_badges@ == o.temporary_badges@.remove(ti)
                    &&& fm ==> final(self).fund_manager_badge_vault@.len()
                        == o.fund_manager_badge_vault@.len() - 1
                        && final(self).borrower_badge_vault == o.borrower_badge_vault
                    &&& !fm ==> final(self).borrower_badge_vault@.len()
                        == o.borrower_badge_vault@.len() - 1
                        && final(self).fund_manager_badge_vault == o.fund_manager_badge_vault
                    &&& *final(self) == (MapleFinance {
                        approvals: final(self).approvals,
                        temporary_badges: final(self).temporary_badges,
                        fund_manager_badge_vault: final(self).fund_manager_badge_vault,
                        borrower_badge_vault: final(self).borrower_badge_vault,
                        ..o
                    })
                }
            }),
    {
        if badge_resource != self.temporary_badge_resource {
            return Err(RegistryError::WrongBadge);
        }
        let ti = match find_temp(&self.temporary_badges, temp_id) {
            Some(i) => i,
            None => {
                return Err(RegistryError::BadgeMissing);
            },
        };
        let ai = match find_entry(&self.approvals, temp_id) {
            Some(i) => i,
            None => {
                return Err(RegistryError::NotApproved);
            },
        };
        let badge = self.approvals[ai].1;
        match self.temporary_badges[ti].1 {
            UserType::FundManager => {
                let vi = match find_id(&self.fund_manager_badge_vault, badge) {
                    Some(i) => i,
                    None => {
                        return Err(RegistryError::BadgeMissing);
                    },
                };
                self.fund_manager_badge_vault.remove(vi);
            },
            UserType::Borrower => {
                let vi = match find_id(&self.borrower_badge_vault, badge) {
                    Some(i) => i,
                    None => {
                        return Err(RegistryError::BadgeMissing);
                    },
                };
                self.borrower_badge_vault.remove(vi);
            },
        }
        self.approvals.remove(ai);
        self.temporary_badges.remove(ti);
        Ok(badge)
    }
    /// Deposits the loan request `nft_id` (of resource `nft_resource`) in
    /// the vault of the borrower `borrower_id` (proved by a badge of
    /// resource `badge_resource`), opening the vault on the first deposit.
    pub fn deposit_loan_requests(
        &mut self,
        badge_resource: u64,
        borrower_id: u64,
        nft_resource: u64,
        nft_id: u64,
    ) -> (r: Result<(), RegistryError>)
        ensures
            r is Ok <==> badge_resource == old(self).borrower_resource && nft_resource == old(self).loan_request_resource,
            r is Err ==> r == Err::<(), RegistryError>(RegistryError::WrongBadge) && *final(self)
                == *old(self),
            r is Ok ==> {
                &&& final(self).loan_requests@ == old(self).loan_requests@.push((borrower_id, nft_id))
                &&& old(self).loan_request_vaults@.contains(borrower_id) ==> final(self).loan_request_vaults == old(self).loan_request_vaults
                &&& !old(self).loan_request_vaults@.contains(borrower_id) ==> final(self).loan_request_vaults@ == old(self).loan_request_vaults@.push(borrower_id)
                &&& *final(self) == (MapleFinance {
                    loan_requests: final(self).loan_requests,
                    loan_request_vaults: final(self).loan_request_vaults,
                    ..*old(self)
                })
            },
    {
        if badge_resource != self.borrower_resource || nft_resource != self.loan_request_resource {
            return Err(RegistryError::WrongBadge);
        }
        if find_id(&self.loan_request_vaults, borrower_id).is_none() {
            self.loan_request_vaults.push(borrower_id);
        }
        self.loan_requests.push((borrower_id, nft_id));
        Ok(())
    }

    /// Takes the loan request `nft_id` out of the vault of the borrower
    /// `borrower_id` (proved by a badge of resource `badge_resource`).
    #[verifier::loop_isolation(false)]
    pub fn retrieve_loan_request_nft(&mut self, badge_resource: u64, borrower_id: u64, nft_id: u64) -> (r:
        Result<u64, RegistryError>)
        ensures
            ({
                let o = *old(self);
                let held = exists|i: int|
                    0 <= i < o.loan_requests@.len() && #[trigger] o.loan_requests@[i] == (
                        borrower_id,
                        nft_id,
                    );
                &&& badge_resource != o.borrower_resource ==> r == Err::<u64, RegistryError>(
                    RegistryError::WrongBadge,
                )
                &&& badge_resource == o.borrower_resource && !o.loan_request_vaults@.contains(
                    borrower_id,
                ) ==> r == Err::<u64, RegistryError>(RegistryError::NoLoanRequests)
                &&& badge_resource == o.borrower_resource && o.loan_request_vaults@.contains(
                    borrower_id,
                ) && !held ==> r == Err::<u64, RegistryError>(RegistryError::LoanRequestMissing)
                &&& r is Ok <==> badge_resource == o.borrower_resource
                    && o.loan_request_vaults@.contains(borrower_id) && held
                &&& r is Err ==> *final(self) == o
                &&& r matches Ok(x) ==> x == nft_id && exists|i: int|
                    0 <= i < o.loan_requests@.len() && o.loan_requests@[i] == (borrower_id, nft_id)
                        && final(self).loan_requests@ == o.loan_requests@.remove(i)
                &&& r is Ok ==> *final(self) == (MapleFinance {
                    loan_requests: final(self).loan_requests,
                    ..o
                })
            }),
    {
        if badge_resource != self.borrower_resource {
            return Err(RegistryError::WrongBadge);
        }
        if find_id(&self.loan_request_vaults, borrower_id).is_none() {
            return Err(RegistryError::NoLoanRequests);
        }
        let mut i: usize = 0;
        while i < self.loan_requests.len()
            invariant
                *self == *old(self),
                0 <= i <= self.loan_requests@.len(),
                forall|j: int|
                    0 <= j < i ==> #[trigger] self.loan_requests@[j] != (borrower_id, nft_id),
            decreases self.loan_requests@.len() - i,
        {
            if self.loan_requests[i].0 == borrower_id && self.loan_requests[i].1 == nft_id {
                let ghost before = self.loan_requests@;
                self.loan_requests.remove(i);
                assert(before[i as int] == (borrower_id, nft_id));
                assert(self.loan_requests@ == before.remove(i as int));
                return Ok(nft_id);
            }
            i = i + 1;
        }
        Err(RegistryError::LoanRequestMissing)
    }

    /// The loan requests in the vault of the borrower `borrower_id`, in the
    /// order they were deposited.
    pub fn view_loan_requests(&self, borrower_id: u64) -> (r: Result<Vec<u64>, RegistryError>)
        ensures
            !self.loan_request_vaults@.contains(borrower_id) ==> r == Err::<Vec<u64>, RegistryError>(
                RegistryError::NoLoanRequests,
            ),
            r is Ok <==> self.loan_request_vaults@.contains(borrower_id),
            r matches Ok(v) ==> v@ == requests_of(
                self.loan_requests@,
                borrower_id,
                self.loan_requests@.len() as int,
            ),
    {
        if find_id(&self.loan_request_vaults, borrower_id).is_none() {
            return Err(RegistryError::NoLoanRequests);
        }
        let mut out: Vec<u64> = Vec::new();
        let mut i: usize = 0;
        while i < self.loan_requests.len()
            invariant
                0 <= i <= self.loan_requests@.len(),
                out@ == requests_of(self.loan_requests@, borrower_id, i as int),
            decreases self.loan_requests@.len() - i,
        {
            if self.loan_requests[i].0 == borrower_id {
                out.push(self.loan_requests[i].1);
            }
            i = i + 1;
        }
        Ok(out)
    }

    /// Registers the funding locker `address` of the loan `loan_id`;
    /// refused when the loan has one.
    pub fn insert_funding_lockers(&mut self, loan_id: u64, address: u64) -> (r: Result<
        (),
        RegistryError,
    >)
        ensures
            r is Ok <==> !key_in(old(self).funding_lockers@, loan_id),
            r is Err ==> r == Err::<(), RegistryError>(RegistryError::AlreadyExists) && *final(self)
                == *old(self),
            r is Ok ==> final(self).funding_lockers@ == old(self).funding_lockers@.push(
                (loan_id, address),
            ) && *final(self) == (MapleFinance {
                funding_lockers: final(self).funding_lockers,
                ..*old(self)
            }),
    {
        if find_entry(&self.funding_lockers, loan_id).is_some() {
            return Err(RegistryError::AlreadyExists);
        }
        self.funding_lockers.push((loan_id, address));
        Ok(())
    }

    /// The funding locker of the loan `loan_id`.
    pub fn retrieve_funding_locker_address(&self, loan_id: u64) -> (r: Result<u64, RegistryError>)
        ensures
            r is Ok <==> key_in(self.funding_lockers@, loan_id),
            r is Err ==> r == Err::<u64, RegistryError>(RegistryError::NotFound),
            r matches Ok(a) ==> a == self.funding_lockers@[key_index(
                self.funding_lockers@,
                loan_id,
            )].1,
    {
        match find_entry(&self.funding_lockers, loan_id) {
            Some(i) => Ok(self.funding_lockers[i].1),
            None => Err(RegistryError::NotFound),
        }
    }

    /// Registers the debt fund `address` of the fund manager
    /// `fund_manager_id`; refused when the manager has one.
    pub fn insert_debt_fund(&mut self, fund_manager_id: u64, address: u64) -> (r: Result<
        (),
        RegistryError,
    >)
        ensures
            r is Ok <==> !key_in(old(self).debt_funds@, fund_manager_id),
            r is Err ==> r == Err::<(), RegistryError>(RegistryError::AlreadyExists) && *final(self)
                == *old(self),
            r is Ok ==> final(self).debt_funds@ == old(self).debt_funds@.push(
                (fund_manager_id, address),
            ) && *final(self) == (MapleFinance { debt_funds: final(self).debt_funds, ..*old(self) }),
    {
        if find_entry(&self.debt_funds, fund_manager_id).is_some() {
            return Err(RegistryError::AlreadyExists);
        }
        self.debt_funds.push((fund_manager_id, address));
        Ok(())
    }

    /// Registers the index fund `address` under the key `(a, b)`; refused
    /// when the key is taken.
    pub fn insert_index_fund(&mut self, a: String, b: String, address: u64) -> (r: Result<
        (),
        RegistryError,
    >)
        ensures
            ({
                let taken = exists|j: int|
                    0 <= j < old(self).index_funds@.len() && #[trigger] old(self).index_funds@[j].0.0@ == a@ && old(self).index_funds@[j].0.1@ == b@;
                &&& r is Ok <==> !taken
                &&& r is Err ==> r == Err::<(), RegistryError>(RegistryError::AlreadyExists)
                    && *final(self) == *old(self)
                &&& r is Ok ==> final(self).index_funds@ == old(self).index_funds@.push(
                    ((a, b), address),
                ) && *final(self) == (MapleFinance {
                    index_funds: final(self).index_funds,
                    ..*old(self)
                })
            }),
    {
        if find_pair(&self.index_funds, &a, &b).is_some() {
            return Err(RegistryError::AlreadyExists);
        }
        self.index_funds.push(((a, b), address));
        Ok(())
    }

    /// Registers the ticker of the index fund named `name`; refused when
    /// the name has one.
    pub fn insert_index_fund_name(&mut self, name: String, ticker: String) -> (r: Result<
        (),
        RegistryError,
    >)
        ensures
            ({
                let taken = exists|j: int|
                    0 <= j < old(self).index_fund_names@.len() && #[trigger] old(self).index_fund_names@[j].0@ == name@;
                &&& r is Ok <==> !taken
                &&& r is Err ==> r == Err::<(), RegistryError>(RegistryError::AlreadyExists)
                    && *final(self) == *old(self)
                &&& r is Ok ==> final(self).index_fund_names@ == old(self).index_fund_names@.push(
                    (name, ticker),
                ) && *final(self) == (MapleFinance {
                    index_fund_names: final(self).index_fund_names,
                    ..*old(self)
                })
            }),
    {
        match find_first(&self.index_fund_names, &name) {
            Some(i) => {
                assert(self.index_fund_names@[i as int].0@ == name@);
                Err(RegistryError::AlreadyExists)
            },
            None => {
                self.index_fund_names.push((name, ticker));
                Ok(())
            },
        }
    }

    /// Whether an index fund is named `name`.
    pub fn assert_index_fund_name(&self, name: &String) -> (r: bool)
        ensures
            r == exists|j: int|
                0 <= j < self.index_fund_names@.len() && #[trigger] self.index_fund_names@[j].0@
                    == name@,
    {
        match find_first(&self.index_fund_names, name) {
            Some(i) => {
                assert(self.index_fund_names@[i as int].0@ == name@);
                true
            },
            None => false,
        }
    }

    /// The key of the index fund named `name`: its name and ticker ordered
    /// by `sort_string`; refused for an unknown name.
    fn index_name_pair(&self, name: &String) -> (r: Result<(String, String), RegistryError>)
        ensures
            r is Ok <==> name_in(self.index_fund_names@, name@),
            r is Err ==> r == Err::<(String, String), RegistryError>(RegistryError::NoFundName),
            r matches Ok(p) ==> (p.0@, p.1@) == fund_key(
                name@,
                self.index_fund_names@[name_index(self.index_fund_names@, name@)].1@,
            ),
    {
        match find_first(&self.index_fund_names, name) {
            Some(i) => {
                let ghost k = name_index(self.index_fund_names@, name@);
                assert(self.index_fund_names@[i as int].0@ == name@);
                assert(k == i as int) by {
                    if k < i {
                        assert(self.index_fund_names@[k].0@ != name@);
                    } else if k > i {
                        assert(self.index_fund_names@[i as int].0@ != name@);
                    }
                }
                let ticker = self.index_fund_names[i].1.clone();
                let pair = sort_string(name.clone(), ticker);
                Ok(pair)
            },
            None => Err(RegistryError::NoFundName),
        }
    }

    /// Whether an index fund is registered under the name `name`; refused
    /// for an unknown name.
    pub fn assert_index_fund(&self, name: &String) -> (r: Result<bool, RegistryError>)
        ensures
            (r is Ok) == exists|j: int|
                0 <= j < self.index_fund_names@.len() && #[trigger] self.index_fund_names@[j].0@
                    == name@,
            r is Err ==> r == Err::<bool, RegistryError>(RegistryError::NoFundName),
            r matches Ok(b) ==> ({
                let k = fund_key(
                    name@,
                    self.index_fund_names@[name_index(self.index_fund_names@, name@)].1@,
                );
                b == key_pair_in(self.index_funds@, k.0, k.1)
            }),
    {
        match self.index_name_pair(name) {
            Ok(p) => Ok(find_pair(&self.index_funds, &p.0, &p.1).is_some()),
            Err(e) => Err(e),
        }
    }

    /// The index fund registered under the name `name`.
    pub fn get_index_fund(&self, name: &String) -> (r: Result<u64, RegistryError>)
        ensures
            r == index_fund_of(*self, name@),
            r matches Ok(a) ==> exists|j: int|
                0 <= j < self.index_funds@.len() && self.index_funds@[j].1 == a,
    {
        match self.index_name_pair(name) {
            Ok(p) => match find_pair(&self.index_funds, &p.0, &p.1) {
                Some(i) => {
                    let ghost k = key_pair_index(self.index_funds@, p.0@, p.1@);
                    assert(self.index_funds@[i as int].0.0@ == p.0@);
                    assert(k == i as int) by {
                        if k < i {
                            assert(!(self.index_funds@[k].0.0@ == p.0@ && self.index_funds@[k].0.1@
                                == p.1@));
                        } else if k > i {
                            assert(!(self.index_funds@[i as int].0.0@ == p.0@
                                && self.index_funds@[i as int].0.1@ == p.1@));
                        }
                    }
                    Ok(self.index_funds[i].1)
                },
                None => Err(RegistryError::NotFound),
            },
            Err(e) => Err(e),
        }
    }

    /// The registered index funds: (key, fund).
    pub fn index_fund_list(&self) -> (r: Vec<((String, String), u64)>)
        ensures
            r@.len() == self.index_funds@.len(),
            forall|i: int|
                0 <= i < r@.len() ==> #[trigger] r@[i].0.0@ == self.index_funds@[i].0.0@
                    && r@[i].0.1@ == self.index_funds@[i].0.1@ && r@[i].1 == self.index_funds@[i].1,
    {
        let mut out: Vec<((String, String), u64)> = Vec::new();
        let mut i: usize = 0;
        while i < self.index_funds.len()
            invariant
                0 <= i <= self.index_funds@.len(),
                out@.len() == i,
                forall|j: int|
                    0 <= j < i ==> #[trigger] out@[j].0.0@ == self.index_funds@[j].0.0@
                        && out@[j].0.1@ == self.index_funds@[j].0.1@ && out@[j].1
                        == self.index_funds@[j].1,
            decreases self.index_funds@.len() - i,
        {
            let a = self.index_funds[i].0.0.clone();
            let b = self.index_funds[i].0.1.clone();
            out.push(((a, b), self.index_funds[i].1));
            i = i + 1;
        }
        out
    }
}

/// An index fund is found by its name once it is registered: after a new
/// name is recorded with its ticker and the fund under the name's key,
/// the lookup of the name gives that fund.
pub proof fn registered_index_fund_is_found(
    before: MapleFinance,
    after: MapleFinance,
    name: String,
    ticker: String,
    key: (String, String),
    address: u64,
)
    requires
        !name_in(before.index_fund_names@, name@),
        !key_pair_in(before.index_funds@, key.0@, key.1@),
        (key.0@, key.1@) == fund_key(name@, ticker@),
        after.index_fund_names@ == before.index_fund_names@.push((name, ticker)),
        after.index_funds@ == before.index_funds@.push((key, address)),
    ensures
        index_fund_of(after, name@) == Ok::<u64, RegistryError>(address),
{
    let names = after.index_fund_names@;
    let funds = after.index_funds@;
    let n = before.index_fund_names@.len() as int;
    let m = before.index_funds@.len() as int;
    assert(names[n].0@ == name@);
    assert(name_in(names, name@));
    let k = name_index(names, name@);
    assert(k == n) by {
        if k < n {
            assert(names[k] == before.index_fund_names@[k]);
        } else if k > n {
            assert(names[n].0@ != name@);
        }
    }
    assert(funds[m].0.0@ == key.0@ && funds[m].0.1@ == key.1@);
    assert(key_pair_in(funds, key.0@, key.1@));
    let j = key_pair_index(funds, key.0@, key.1@);
    assert(j == m) by {
        if j < m {
            assert(funds[j] == before.index_funds@[j]);
        } else if j > m {
            assert(!(funds[m].0.0@ == key.0@ && funds[m].0.1@ == key.1@));
        }
    }
}

} // verus!
