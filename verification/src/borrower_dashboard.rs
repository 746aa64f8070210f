//! A borrower's dashboard: it issues the borrower's loan requests and
//! deposits them with the platform registry, deposits collateral with the
//! funding locker of an approved request, and asks the locker for draws.
//!
//! The registry and the funding locker are passed in; the locker's address
//! is checked against the one the loan request or the registry records. A
//! request that fails a check or overflows is refused with an
//! error and leaves the dashboard, the registry and the locker unchanged.
use vstd::prelude::*;
use crate::decimal::{Decimal, in_range, div_attos};
use crate::structs::{Borrower, Loan, LoanRequest, RequestStatus, PaymentFrequency, Status};
use crate::maple_finance::{MapleFinance, RegistryError, key_in, key_index, requests_of};
use crate::funding_locker::{FundingLocker, LockerError};
use crate::registry::find_key;

verus! {

/// Why the dashboard refused a request.
#[derive(Clone, Copy, Debug, PartialEq, Eq, Structural)]
pub enum BorrowerDashboardError {
    /// The badge is not the borrower's.
    Unauthorized,
    /// No loan request has this id.
    NoSuchRequest,
    /// The loan request has no funding locker yet.
    NotApproved,
    /// The locker given is not the one recorded.
    WrongLocker,
    /// No request id is left to issue.
    IdsExhausted,
    /// An amount overflows or a divisor is zero.
    Arithmetic,
    /// The registry refused the request.
    Registry(RegistryError),
    /// The funding locker refused the request.
    Locker(LockerError),
}

/// The dashboard: its borrower's badge and data, and the loan requests it
/// issued (id, data).
#[derive(Debug)]
pub struct BorrowerDashboard {
    pub borrower_resource: u64,
    pub borrower_id: u64,
    pub borrower: Borrower,
    pub loan_request_resource: u64,
    pub next_request_id: u64,
    pub loan_requests: Vec<(u64, LoanRequest)>,
    pub registry: u64,
}

/// Whether a loan request id is recorded.
pub open spec fn request_in(s: Seq<(u64, LoanRequest)>, id: u64) -> bool {
    exists|i: int| 0 <= i < s.len() && #[trigger] s[i].0 == id
}

/// The index of a recorded loan request id (the first).
pub open spec fn request_index(s: Seq<(u64, LoanRequest)>, id: u64) -> int {
    choose|i: int| 0 <= i < s.len() && s[i].0 == id && forall|j: int| 0 <= j < i ==> #[trigger] s[j].0 != id
}

/// The first index of a loan request id, if any.
fn find_request(v: &Vec<(u64, LoanRequest)>, id: u64) -> (r: Option<usize>)
    ensures
        r matches Some(i) ==> i < v@.len() && i == request_index(v@, id) && request_in(v@, id),
        r is None ==> !request_in(v@, id),
{
    let mut i: usize = 0;
    while i < v.len()
        invariant
            0 <= i <= v@.len(),
            forall|j: int| 0 <= j < i ==> #[trigger] v@[j].0 != id,
        decreases v@.len() - i,
    {
        if v[i].0 == id {
            assert(v@[i as int].0 == id);
            let ghost k = request_index(v@, id);
            assert(k == i as int) by {
                if k < i {
                    assert(v@[k].0 != id);
                } else if k > i {
                    assert(v@[i as int].0 != id);
                }
            }
            return Some(i);
        }
        i = i + 1;
    }
    None
}

/// Of the first `n` loan request ids `ids`, those whose data in `reqs`
/// records a loan NFT (an approved request), in order.
pub open spec fn approved_of(ids: Seq<u64>, reqs: Seq<(u64, LoanRequest)>, n: int) -> Seq<u64>
    decreases n,
{
    if n <= 0 {
        Seq::empty()
    } else if reqs[request_index(reqs, ids[n - 1])].1.loan_nft_id is Some {
        approved_of(ids, reqs, n - 1).push(ids[n - 1])
    } else {
        approved_of(ids, reqs, n - 1)
    }
}

impl BorrowerDashboard {
    /// A dashboard for the borrower `borrower_id` named `name`; request ids
    /// are issued from one.
    pub fn new(
        borrower_resource: u64,
        borrower_id: u64,
        name: String,
        loan_request_resource: u64,
        registry: u64,
    ) -> (r: BorrowerDashboard)
        ensures
            r.borrower_resource == borrower_resource && r.borrower_id == borrower_id,
            r.borrower.name@ == name@,
            r.borrower.loan_requests@.len() == 0 && r.borrower.loans@.len() == 0,
            r.loan_request_resource == loan_request_resource,
            r.next_request_id == 1,
            r.loan_requests@.len() == 0,
            r.registry == registry,
    {
        BorrowerDashboard {
            borrower_resource,
            borrower_id,
            borrower: Borrower { name, loan_requests: Vec::new(), loans: Vec::new() },
            loan_request_resource,
            next_request_id: 1,
            loan_requests: Vec::new(),
            registry,
        }
    }

    /// Requests a loan of `loan_amount` of `token` against collateral of
    /// `collateral_address` (badge of `badge_resource`): issues a pending
    /// loan request, records it in the borrower's data and deposits it with
    /// the registry. Returns the request's id.
    pub fn request_new_loan(
        &mut self,
        registry: &mut MapleFinance,
        badge_resource: u64,
        token: u64,
        loan_amount: Decimal,
        collateral_address: u64,
        collateral_percent: Decimal,
        term_length: u64,
        annualized_interest_rate: Decimal,
        payment_frequency: PaymentFrequency,
    ) -> (r: Result<u64, BorrowerDashboardError>)
        ensures
            ({
                let o = *old(self);
                let deposit_ok = o.borrower_resource == old(registry).borrower_resource
                    && o.loan_request_resource == old(registry).loan_request_resource;
                &&& badge_resource != o.borrower_resource ==> r == Err::<u64, BorrowerDashboardError>(
                    BorrowerDashboardError::Unauthorized,
                )
                &&& r is Ok <==> badge_resource == o.borrower_resource && o.next_request_id
                    < u64::MAX && deposit_ok
                &&& r is Err ==> *final(self) == o && *final(registry) == *old(registry)
                &&& r matches Ok(id) ==> {
                    let req = LoanRequest {
                        asset: token,
                        loan_amount,
                        collateral_address,
                        collateral_percent,
                        term_length,
                        annualized_interest_rate,
                        payment_frequency,
                        borrower: o.borrower_id,
                        status: RequestStatus::Pending,
                        loan_nft_id: None,
                        funding_locker_address: None,
                    };
                    &&& id == o.next_request_id
                    &&& final(self).next_request_id == id + 1
                    &&& final(self).loan_requests@ == o.loan_requests@.push((id, req))
                    &&& final(self).borrower.loan_requests@ == o.borrower.loan_requests@.push(id)
                    &&& final(self).borrower.loans@ == o.borrower.loans@
                    &&& final(registry).loan_requests@ == old(registry).loan_requests@.push(
                        (o.borrower_id, id),
                    )
                }
            }),
    {
        if badge_resource != self.borrower_resource {
            return Err(BorrowerDashboardError::Unauthorized);
        }
        if self.next_request_id == u64::MAX {
            return Err(BorrowerDashboardError::IdsExhausted);
        }
        if self.borrower_resource != registry.borrower_resource || self.loan_request_resource
            != registry.loan_request_resource {
            return Err(BorrowerDashboardError::Registry(RegistryError::WrongBadge));
        }
        let id = self.next_request_id;
        let req = LoanRequest {
            asset: token,
            loan_amount,
            collateral_address,
            collateral_percent,
            term_length,
            annualized_interest_rate,
            payment_frequency,
            borrower: self.borrower_id,
            status: RequestStatus::Pending,
            loan_nft_id: None,
            funding_locker_address: None,
        };
        self.next_request_id = id + 1;
        self.loan_requests.push((id, req));
        self.borrower.loan_requests.push(id);
        let d = registry.deposit_loan_requests(
            self.borrower_resource,
            self.borrower_id,
            self.loan_request_resource,
            id,
        );
        assert(d is Ok);
        Ok(id)
    }

    /// The data of the loan request `id`, if this dashboard issued it.
    pub fn view_loan_request(&self, id: u64) -> (r: Option<LoanRequest>)
        ensures
            r is Some <==> request_in(self.loan_requests@, id),
            r matches Some(q) ==> q == self.loan_requests@[request_index(self.loan_requests@, id)].1,
    {
        match find_request(&self.loan_requests, id) {
            Some(i) => Some(self.loan_requests[i].1),
            None => None,
        }
    }

    /// Records a lender's approval of the loan request `id`: the request is
    /// marked modified, with its loan NFT and its funding locker.
    pub fn update_loan_request(&mut self, id: u64, loan_nft_id: u64, locker: u64) -> (r: Result<
        (),
        BorrowerDashboardError,
    >)
        ensures
            r is Ok <==> request_in(old(self).loan_requests@, id),
            r is Err ==> r == Err::<(), BorrowerDashboardError>(
                BorrowerDashboardError::NoSuchRequest,
            ) && *final(self) == *old(self),
            r is Ok ==> {
                let i = request_index(old(self).loan_requests@, id);
                let q = old(self).loan_requests@[i].1;
                &&& final(self).loan_requests@ == old(self).loan_requests@.update(
                    i,
                    (
                        id,
                        LoanRequest {
                            status: RequestStatus::Modified,
                            loan_nft_id: Some(loan_nft_id),
                            funding_locker_address: Some(locker),
                            ..q
                        },
                    ),
                )
                &&& *final(self) == (BorrowerDashboard {
                    loan_requests: final(self).loan_requests,
                    ..*old(self)
                })
            },
    {
        match find_request(&self.loan_requests, id) {
            Some(i) => {
                let q = self.loan_requests[i].1;
                self.loan_requests.set(
                    i,
                    (
                        id,
                        LoanRequest {
                            status: RequestStatus::Modified,
                            loan_nft_id: Some(loan_nft_id),
                            funding_locker_address: Some(locker),
                            ..q
                        },
                    ),
                );
                Ok(())
            },
            None => Err(BorrowerDashboardError::NoSuchRequest),
        }
    }

    /// The borrower's loans (badge of `badge_resource`).
    pub fn view_loans(&self, badge_resource: u64) -> (r: Result<Vec<u64>, BorrowerDashboardError>)
        ensures
            r is Ok <==> badge_resource == self.borrower_resource,
            r is Err ==> r == Err::<Vec<u64>, BorrowerDashboardError>(
                BorrowerDashboardError::Unauthorized,
            ),
            r matches Ok(v) ==> v@ == self.borrower.loans@,
    {
        if badge_resource != self.borrower_resource {
            return Err(BorrowerDashboardError::Unauthorized);
        }
        let mut out: Vec<u64> = Vec::new();
        let mut i: usize = 0;
        while i < self.borrower.loans.len()
            invariant
                0 <= i <= self.borrower.loans@.len(),
                out@ == self.borrower.loans@.subrange(0, i as int),
            decreases self.borrower.loans@.len() - i,
        {
            out.push(self.borrower.loans[i]);
            i = i + 1;
            assert(out@ =~= self.borrower.loans@.subrange(0, i as int));
        }
        assert(self.borrower.loans@.subrange(0, self.borrower.loans@.len() as int)
            =~= self.borrower.loans@);
        Ok(out)
    }

    /// Deposits `amount` collateral of `collateral_resource` for the loan
    /// request `request_id` with its funding locker `locker`, at address
    /// `locker_address` (badge of `badge_resource`). The request is taken
    /// out of the registry; when the collateral meets the loan's
    /// requirement the loan NFT is released to the borrower, the request is
    /// burned and becomes a loan in the borrower's data, and the loan's id
    /// is returned; otherwise the request goes back to the registry and
    /// `None` is returned.
    pub fn deposit_collateral(
        &mut self,
        registry: &mut MapleFinance,
        locker: &mut FundingLocker,
        locker_address: u64,
        badge_resource: u64,
        request_id: u64,
        collateral_resource: u64,
        amount: Decimal,
    ) -> (r: Result<Option<u64>, BorrowerDashboardError>)
        requires
            old(locker).wf(),
            amount@ >= 0,
        ensures
            final(locker).wf(),
            badge_resource != old(self).borrower_resource ==> r == Err::<
                Option<u64>,
                BorrowerDashboardError,
            >(BorrowerDashboardError::Unauthorized),
            r is Err ==> *final(self) == *old(self) && *final(registry) == *old(registry) && *final(locker) == *old(locker),
            r matches Ok(x) ==> {
                let i = request_index(old(self).loan_requests@, request_id);
                let q = old(self).loan_requests@[i].1;
                &&& request_in(old(self).loan_requests@, request_id)
                &&& q.funding_locker_address == Some(locker_address)
                &&& final(locker).collateral@ == old(locker).collateral@ + amount@
                &&& (x is Some) == (div_attos(
                    old(locker).collateral@ + amount@,
                    old(locker).loan.principal_loan_amount@,
                ) >= old(locker).loan.collateral_percent@)
                &&& x matches Some(l) ==> Some(l) == q.loan_nft_id && final(self).borrower.loans@ == old(self).borrower.loans@.push(l)
                    && final(self).loan_requests@ == old(self).loan_requests@.remove(i)
                &&& x is None ==> *final(self) == *old(self)
                &&& x is None ==> exists|k: int|
                    0 <= k < old(registry).loan_requests@.len() && final(registry).loan_requests@
                        == old(registry).loan_requests@.remove(k).push(
                        (old(self).borrower_id, request_id),
                    )
            },
    {
        if badge_resource != self.borrower_resource {
            return Err(BorrowerDashboardError::Unauthorized);
        }
        let i = match find_request(&self.loan_requests, request_id) {
            Some(i) => i,
            None => {
                return Err(BorrowerDashboardError::NoSuchRequest);
            },
        };
        let q = self.loan_requests[i].1;
        let recorded = match q.funding_locker_address {
            Some(a) => a,
            None => {
                return Err(BorrowerDashboardError::NotApproved);
            },
        };
        if recorded != locker_address {
            return Err(BorrowerDashboardError::WrongLocker);
        }
        let loan_id = match q.loan_nft_id {
            Some(l) => l,
            None => {
                return Err(BorrowerDashboardError::NotApproved);
            },
        };
        if locker.loan.principal_loan_amount.is_zero() {
            return Err(BorrowerDashboardError::Arithmetic);
        }
        let total = match locker.collateral.checked_add(amount) {
            Some(t) => t,
            None => {
                return Err(BorrowerDashboardError::Arithmetic);
            },
        };
        if locker.loan.collateral_amount.checked_add(amount).is_none() {
            return Err(BorrowerDashboardError::Arithmetic);
        }
        let ratio = match total.checked_div(locker.loan.principal_loan_amount) {
            Some(x) => x,
            None => {
                return Err(BorrowerDashboardError::Arithmetic);
            },
        };
        if self.loan_request_resource != locker.loan_request_nft_address {
            return Err(BorrowerDashboardError::Locker(LockerError::IncorrectProof));
        }
        if collateral_resource != locker.collateral_address {
            return Err(BorrowerDashboardError::Locker(LockerError::IncorrectCollateral));
        }
        let met = ratio.ge(locker.loan.collateral_percent);
        if met && !locker.loan_nft_held {
            return Err(BorrowerDashboardError::Locker(LockerError::LoanNftReleased));
        }
        if self.loan_request_resource != registry.loan_request_resource {
            return Err(BorrowerDashboardError::Registry(RegistryError::WrongBadge));
        }
        match registry.retrieve_loan_request_nft(self.borrower_resource, self.borrower_id, request_id) {
            Ok(_) => {},
            Err(e) => {
                return Err(BorrowerDashboardError::Registry(e));
            },
        }
        let got = locker.deposit_collateral(self.loan_request_resource, collateral_resource, amount);
        assert(got == Ok::<bool, LockerError>(met));
        if met {
            self.borrower.loans.push(loan_id);
            self.loan_requests.remove(i);
            Ok(Some(loan_id))
        } else {
            let back = registry.deposit_loan_requests(
                self.borrower_resource,
                self.borrower_id,
                self.loan_request_resource,
                request_id,
            );
            assert(back is Ok);
            Ok(None)
        }
    }



    /// Asks the funding locker of loan `loan_id` for a draw of `amount`,
    /// proving the loan with a badge of `loan_nft_resource`. The registry must record
    /// `locker_address` as the loan's funding locker; the locker then
    /// answers as its own `draw_request` does, which is the inner result.
    pub fn draw_request(
        &self,
        registry: &MapleFinance,
        locker: &mut FundingLocker,
        locker_address: u64,
        loan_id: u64,
        loan_nft_resource: u64,
        amount: Decimal,
    ) -> (r: Result<Result<(), LockerError>, BorrowerDashboardError>)
        requires
            old(locker).wf(),
        ensures
            final(locker).wf(),
            !key_in(registry.funding_lockers@, loan_id) ==> r == Err::<Result<(), LockerError>, BorrowerDashboardError>(
                BorrowerDashboardError::Registry(RegistryError::NotFound),
            ),
            key_in(registry.funding_lockers@, loan_id) && registry.funding_lockers@[key_index(
                registry.funding_lockers@,
                loan_id,
            )].1 != locker_address ==> r == Err::<Result<(), LockerError>, BorrowerDashboardError>(
                BorrowerDashboardError::WrongLocker,
            ),
            r is Err ==> *final(locker) == *old(locker),
            key_in(registry.funding_lockers@, loan_id) && registry.funding_lockers@[key_index(
                registry.funding_lockers@,
                loan_id,
            )].1 == locker_address ==> (r matches Ok(rr) && {
                &&& (final(locker).wf())
                &&& (rr is Err ==> *final(locker) == *old(locker))
                &&& (loan_nft_resource != old(locker).loan_nft_address ==> rr == Err::<(), LockerError>(
                LockerError::IncorrectLoanBadge,
            ))
                &&& (loan_nft_resource == old(locker).loan_nft_address && old(locker).proceed_status
                != Status::Funded ==> rr == Err::<(), LockerError>(LockerError::NotFunded))
                &&& (loan_nft_resource == old(locker).loan_nft_address && old(locker).proceed_status
                == Status::Funded && amount@ > old(locker).draw_limit@ ==> rr == Err::<
                (),
                LockerError,
            >(LockerError::ExceedsDrawLimit))
                &&& (loan_nft_resource == old(locker).loan_nft_address && old(locker).proceed_status
                == Status::Funded && amount@ <= old(locker).draw_limit@ && amount@ < old(locker).draw_minimum@ ==> rr == Err::<(), LockerError>(LockerError::BelowDrawMinimum))
                &&& (loan_nft_resource == old(locker).loan_nft_address && old(locker).proceed_status
                == Status::Funded && old(locker).draw_minimum@ <= amount@ <= old(locker).draw_limit@
                && old(locker).draw_request is Some ==> rr == Err::<(), LockerError>(
                LockerError::DrawRequestPending,
            ))
                &&& (rr is Ok <==> (loan_nft_resource == old(locker).loan_nft_address && old(locker).proceed_status
                == Status::Funded && old(locker).draw_minimum@ <= amount@ <= old(locker).draw_limit@
                && old(locker).draw_request is None))
                &&& (rr is Ok ==> *final(locker) == (FundingLocker {
                draw_request: Some(amount),
                ..*old(locker)
            }))
            }),
    {
        match registry.retrieve_funding_locker_address(loan_id) {
            Ok(a) => {
                if a != locker_address {
                    return Err(BorrowerDashboardError::WrongLocker);
                }
            },
            Err(e) => {
                return Err(BorrowerDashboardError::Registry(e));
            },
        }
        Ok(locker.draw_request(loan_nft_resource, amount))
    }

    /// Collects the approved draw of loan `loan_id` at `epoch` from its
    /// funding locker, proving the loan with a badge of `loan_nft_resource`. The registry must record
    /// `locker_address` as the loan's funding locker; the locker then
    /// answers as its own `receive_draw` does, which is the inner result.
    pub fn receive_draw(
        &self,
        registry: &MapleFinance,
        locker: &mut FundingLocker,
        locker_address: u64,
        loan_id: u64,
        loan_nft_resource: u64,
        epoch: u64,
    ) -> (r: Result<Result<Decimal, LockerError>, BorrowerDashboardError>)
        requires
            old(locker).wf(),
            in_range(old(locker).loan.remaining_balance@ + old(locker).draw_vault@),
            in_range(old(locker).fee_vault@ + old(locker).loan.origination_fee_charged@),
        ensures
            final(locker).wf(),
            !key_in(registry.funding_lockers@, loan_id) ==> r == Err::<Result<Decimal, LockerError>, BorrowerDashboardError>(
                BorrowerDashboardError::Registry(RegistryError::NotFound),
            ),
            key_in(registry.funding_lockers@, loan_id) && registry.funding_lockers@[key_index(
                registry.funding_lockers@,
                loan_id,
            )].1 != locker_address ==> r == Err::<Result<Decimal, LockerError>, BorrowerDashboardError>(
                BorrowerDashboardError::WrongLocker,
            ),
            r is Err ==> *final(locker) == *old(locker),
            key_in(registry.funding_lockers@, loan_id) && registry.funding_lockers@[key_index(
                registry.funding_lockers@,
                loan_id,
            )].1 == locker_address ==> (r matches Ok(rr) && {
                &&& (final(locker).wf())
                &&& (rr is Err ==> *final(locker) == *old(locker))
                &&& (loan_nft_resource != old(locker).loan_nft_address ==> rr == Err::<Decimal, LockerError>(
                LockerError::IncorrectLoanBadge,
            ))
                &&& (loan_nft_resource == old(locker).loan_nft_address ==> (old(locker).loan.origination_fee_charged@ < 0 <==> rr == Err::<Decimal, LockerError>(
                LockerError::NegativeAmount,
            )))
                &&& (loan_nft_resource == old(locker).loan_nft_address ==> (0 <= old(locker).loan.origination_fee_charged@ && old(locker).loan.origination_fee_charged@ > old(locker).draw_vault@ <==> rr == Err::<Decimal, LockerError>(LockerError::InsufficientDraw)))
                &&& (rr matches Ok(got) ==> {
                let fee = old(locker).loan.origination_fee_charged@;
                &&& got@ == old(locker).draw_vault@ - fee
                &&& final(locker).draw_vault@ == 0
                &&& final(locker).fee_vault@ == old(locker).fee_vault@ + fee
                &&& final(locker).loan.remaining_balance@ == old(locker).loan.remaining_balance@ + old(locker).draw_vault@
                &&& final(locker).loan.last_draw == epoch
                &&& final(locker).loan == (Loan {
                    remaining_balance: final(locker).loan.remaining_balance,
                    last_draw: epoch,
                    ..old(locker).loan
                })
                &&& *final(locker) == (FundingLocker {
                    draw_vault: final(locker).draw_vault,
                    fee_vault: final(locker).fee_vault,
                    loan: final(locker).loan,
                    ..*old(locker)
                })
            })
            }),
    {
        match registry.retrieve_funding_locker_address(loan_id) {
            Ok(a) => {
                if a != locker_address {
                    return Err(BorrowerDashboardError::WrongLocker);
                }
            },
            Err(e) => {
                return Err(BorrowerDashboardError::Registry(e));
            },
        }
        Ok(locker.receive_draw(loan_nft_resource, epoch))
    }

    /// Pays `amount` of `resource` on loan `loan_id` to its funding locker,
    /// proving the loan with a badge of `loan_nft_resource`. The registry must record
    /// `locker_address` as the loan's funding locker; the locker then
    /// answers as its own `make_payment` does, which is the inner result.
    pub fn make_payment(
        &self,
        registry: &MapleFinance,
        locker: &mut FundingLocker,
        locker_address: u64,
        loan_id: u64,
        loan_nft_resource: u64,
        resource: u64,
        amount: Decimal,
    ) -> (r: Result<Result<Option<Decimal>, LockerError>, BorrowerDashboardError>)
        requires
            old(locker).wf(),
            amount@ >= 0,
            in_range(old(locker).loan.accrued_interest_expense@ + old(locker).loan.remaining_balance@),
            in_range(old(locker).fee_vault@ + amount@),
            in_range(old(locker).loan.accrued_interest_expense@ - amount@),
            in_range(amount@ - old(locker).loan.accrued_interest_expense@),
            old(locker).loan.payments_remaining == 1 && amount@ > old(locker).loan.accrued_interest_expense@ + old(locker).loan.remaining_balance@ ==> old(locker).loan.accrued_interest_expense@ + old(locker).loan.remaining_balance@ >= 0,
            old(locker).loan.payments_remaining > 1 && amount@ > old(locker).loan.accrued_interest_expense@ ==> old(locker).loan.accrued_interest_expense@
                >= 0,
            in_range(
                amount@ - (old(locker).loan.accrued_interest_expense@ + old(locker).loan.remaining_balance@),
            ),
        ensures
            final(locker).wf(),
            !key_in(registry.funding_lockers@, loan_id) ==> r == Err::<Result<Option<Decimal>, LockerError>, BorrowerDashboardError>(
                BorrowerDashboardError::Registry(RegistryError::NotFound),
            ),
            key_in(registry.funding_lockers@, loan_id) && registry.funding_lockers@[key_index(
                registry.funding_lockers@,
                loan_id,
            )].1 != locker_address ==> r == Err::<Result<Option<Decimal>, LockerError>, BorrowerDashboardError>(
                BorrowerDashboardError::WrongLocker,
            ),
            r is Err ==> *final(locker) == *old(locker),
            key_in(registry.funding_lockers@, loan_id) && registry.funding_lockers@[key_index(
                registry.funding_lockers@,
                loan_id,
            )].1 == locker_address ==> (r matches Ok(rr) && {
                &&& (final(locker).wf())
                &&& (rr is Err ==> *final(locker) == *old(locker))
                &&& (({
                let o = old(locker);
                let ok_badge = loan_nft_resource == o.loan_nft_address;
                let ok_token = resource == o.asset_address;
                let funded = o.proceed_status == Status::Funded;
                let drawn = o.loan.remaining_balance@ >= o.loan.draw_minimum@;
                let left = o.loan.payments_remaining;
                let total = o.loan.accrued_interest_expense@ + o.loan.remaining_balance@;
                let accrued = o.loan.accrued_interest_expense@;
                &&& !ok_badge ==> rr == Err::<Option<Decimal>, LockerError>(
                    LockerError::IncorrectLoanBadge,
                )
                &&& ok_badge && !ok_token ==> rr == Err::<Option<Decimal>, LockerError>(
                    LockerError::IncorrectPaymentToken,
                )
                &&& ok_badge && ok_token && !funded ==> rr == Err::<Option<Decimal>, LockerError>(
                    LockerError::NotFunded,
                )
                &&& ok_badge && ok_token && funded && !drawn ==> rr == Err::<
                    Option<Decimal>,
                    LockerError,
                >(LockerError::NotDrawn)
                &&& ok_badge && ok_token && funded && drawn && left == 0 ==> rr == Err::<
                    Option<Decimal>,
                    LockerError,
                >(LockerError::NoPaymentsRemaining)
                &&& ok_badge && ok_token && funded && drawn && left == 1 && amount@ < total ==> rr
                    == Err::<Option<Decimal>, LockerError>(LockerError::InsufficientPayment)
                &&& ok_badge && ok_token && funded && drawn && left == 1 && amount@ == total ==> rr
                    == Ok::<Option<Decimal>, LockerError>(None)
                &&& ok_badge && ok_token && funded && drawn && left == 1 && amount@ > total ==> (rr
                    matches Ok(Some(back)) && back@ == amount@ - total)
                &&& ok_badge && ok_token && funded && drawn && left == 1 && amount@ >= total ==> (
                    final(locker).fee_vault@
                    == o.fee_vault@ + total && final(locker).loan.remaining_balance@ == 0
                    && final(locker).loan.accrued_interest_expense@ == 0
                    && final(locker).loan.payments_remaining == 0 && final(locker).loan.loan_status
                    == Status::PaidOff && final(locker).loan == (Loan {
                    remaining_balance: final(locker).loan.remaining_balance,
                    accrued_interest_expense: final(locker).loan.accrued_interest_expense,
                    payments_remaining: 0,
                    loan_status: Status::PaidOff,
                    ..o.loan
                }) && *final(locker) == (FundingLocker {
                    fee_vault: final(locker).fee_vault,
                    loan: final(locker).loan,
                    ..*o
                }))
                &&& ok_badge && ok_token && funded && drawn && left > 1 && amount@ > accrued ==> (rr
                    matches Ok(Some(back)) && back@ == amount@ - accrued && final(locker).fee_vault@
                    == o.fee_vault@ + accrued && final(locker).loan.accrued_interest_expense@ == 0
                    && final(locker).loan.payments_remaining == left - 1 && final(locker).loan == (
                Loan {
                    accrued_interest_expense: final(locker).loan.accrued_interest_expense,
                    payments_remaining: final(locker).loan.payments_remaining,
                    ..o.loan
                }) && *final(locker) == (FundingLocker {
                    fee_vault: final(locker).fee_vault,
                    loan: final(locker).loan,
                    ..*o
                }))
                &&& ok_badge && ok_token && funded && drawn && left > 1 && amount@ <= accrued ==> (rr
                    == Ok::<Option<Decimal>, LockerError>(None) && final(locker).fee_vault@
                    == o.fee_vault@ + amount@ && final(locker).loan.accrued_interest_expense@
                    == accrued - amount@ && final(locker).loan == (Loan {
                    accrued_interest_expense: final(locker).loan.accrued_interest_expense,
                    ..o.loan
                }) && *final(locker) == (FundingLocker {
                    fee_vault: final(locker).fee_vault,
                    loan: final(locker).loan,
                    ..*o
                }))
            }))
            }),
    {
        match registry.retrieve_funding_locker_address(loan_id) {
            Ok(a) => {
                if a != locker_address {
                    return Err(BorrowerDashboardError::WrongLocker);
                }
            },
            Err(e) => {
                return Err(BorrowerDashboardError::Registry(e));
            },
        }
        Ok(locker.make_payment(loan_nft_resource, resource, amount))
    }

    /// The approved loan requests among those the registry holds for this
    /// dashboard's borrower (see `approved_of`). Refused when the registry
    /// holds none for the borrower, or holds one whose data this dashboard
    /// does not have.
    pub fn view_approved_loan_requests(&self, registry: &MapleFinance) -> (r: Result<
        Vec<u64>,
        BorrowerDashboardError,
    >)
        ensures
            ({
                let ids = requests_of(
                    registry.loan_requests@,
                    self.borrower_id,
                    registry.loan_requests@.len() as int,
                );
                let known = forall|i: int|
                    0 <= i < ids.len() ==> #[trigger] request_in(self.loan_requests@, ids[i]);
                &&& !registry.loan_request_vaults@.contains(self.borrower_id) ==> r == Err::<
                    Vec<u64>,
                    BorrowerDashboardError,
                >(BorrowerDashboardError::Registry(RegistryError::NoLoanRequests))
                &&& registry.loan_request_vaults@.contains(self.borrower_id) && !known ==> r
                    == Err::<Vec<u64>, BorrowerDashboardError>(
                    BorrowerDashboardError::NoSuchRequest,
                )
                &&& r is Ok <==> registry.loan_request_vaults@.contains(self.borrower_id) && known
                &&& r matches Ok(v) ==> v@ == approved_of(ids, self.loan_requests@, ids.len() as int)
            }),
    {
        let ids = match registry.view_loan_requests(self.borrower_id) {
            Ok(v) => v,
            Err(e) => {
                return Err(BorrowerDashboardError::Registry(e));
            },
        };
        let mut out: Vec<u64> = Vec::new();
        let mut i: usize = 0;
        while i < ids.len()
            invariant
                0 <= i <= ids@.len(),
                out@ == approved_of(ids@, self.loan_requests@, i as int),
                forall|k: int| 0 <= k < i ==> #[trigger] request_in(self.loan_requests@, ids@[k]),
                ids@ == requests_of(
                    registry.loan_requests@,
                    self.borrower_id,
                    registry.loan_requests@.len() as int,
                ),
                registry.loan_request_vaults@.contains(self.borrower_id),
            decreases ids@.len() - i,
        {
            match find_request(&self.loan_requests, ids[i]) {
                Some(k) => {
                    if self.loan_requests[k].1.loan_nft_id.is_some() {
                        out.push(ids[i]);
                    }
                },
                None => {
                    return Err(BorrowerDashboardError::NoSuchRequest);
                },
            }
            i = i + 1;
        }
        Ok(out)
    }
}

} // verus!
