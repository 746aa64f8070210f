//! A debt fund: lenders supply one asset for tracking tokens that record
//! their share of the fund; the fund manager opens funding lockers for
//! loans and moves liquidity and fees between the fund and its lockers.
//!
//! The lockers are other components: what they hand back reaches the fund
//! as arguments. A request that fails a check or overflows is
//! refused here with an error and leaves the fund unchanged.
use vstd::prelude::*;
use crate::decimal::{Decimal, in_range, mul_attos, div_attos, one_attos};
use crate::ledger::Ledger;
use crate::structs::{Loan, PaymentFrequency, Status};
use crate::registry::find_key;

verus! {

/// Why the debt fund refused a request.
#[derive(Clone, Copy, Debug, PartialEq, Eq, Structural)]
pub enum DebtFundError {
    /// The bucket holds no tokens.
    EmptyBucket,
    /// The tokens are not of the kind this call takes.
    WrongToken,
    /// The proof is not the badge this call needs.
    Unauthorized,
    /// The vault does not hold the amount asked for.
    InsufficientLiquidity,
    /// No funding locker is registered for this loan.
    NoLocker,
    /// No fund manager dashboard is set.
    NoDashboard,
    /// No access badge has been deposited.
    NoAccessBadge,
    /// The term is not one, three or six months.
    InvalidTerm,
    /// An amount overflows or a divisor is zero.
    Arithmetic,
}

/// Tracking tokens minted to the fund's creator.
pub open spec fn initial_tracking() -> int {
    100 * one_attos()
}

/// The fund's state: its asset and vault, tracking tokens in circulation,
/// the funding lockers per loan and the fee vaults per resource.
#[derive(Debug)]
pub struct DebtFund {
    pub fund_manager_resource: u64,
    pub fund_manager_id: u64,
    pub asset: u64,
    pub vault: Decimal,
    pub debt_fund_badge: u64,
    pub tracking_token: u64,
    pub tracking_supply: Decimal,
    pub loan_request_resource: u64,
    pub loan_nft_resource: u64,
    pub next_loan_id: u64,
    /// (loan id, funding locker).
    pub funding_lockers: Vec<(u64, u64)>,
    pub access_badge: Option<u64>,
    pub fee_vaults: Ledger,
    pub fund_manager_dashboard: Option<u64>,
}

/// Tracking tokens owed for supplying `amount` to a fund whose vault holds
/// `m` while `supply` tracking tokens circulate: 100 for the first
/// supplier, otherwise `amount * supply / m`.
pub open spec fn tracking_for(amount: int, supply: int, m: int) -> int {
    if supply == 0 {
        initial_tracking()
    } else {
        div_attos(mul_attos(amount, supply), m)
    }
}

/// Payments of a loan of `term` months paid monthly.
pub open spec fn payments_for(term: u64) -> int {
    term as int
}

/// The loan a new funding locker is opened with.
pub open spec fn new_loan_spec(
    borrower_id: u64,
    lender_id: u64,
    loan_amount: Decimal,
    asset: u64,
    collateral: u64,
    collateral_percent: Decimal,
    annualized_interest_rate: Decimal,
    draw_limit: Decimal,
    draw_minimum: Decimal,
    term_length: u64,
    origination_fee: Decimal,
) -> Loan {
    Loan {
        borrower_id,
        lender_id,
        principal_loan_amount: loan_amount,
        asset,
        collateral,
        collateral_percent,
        annualized_interest_rate,
        term_length,
        payments_remaining: term_length,
        payment_frequency: PaymentFrequency::Monthly,
        origination_fee,
        origination_fee_charged: Decimal {
            attos: mul_attos(loan_amount@, origination_fee@) as i128,
        },
        annualized_interest_expense: Decimal { attos: 0 },
        accrued_interest_expense: Decimal { attos: 0 },
        remaining_balance: Decimal { attos: (loan_amount@ + origination_fee@) as i128 },
        draw_limit,
        draw_minimum,
        last_draw: 0,
        collateral_amount: Decimal { attos: 0 },
        collateral_amount_usd: Decimal { attos: 0 },
        health_factor: Decimal { attos: 0 },
        loan_status: Status::Current,
    }
}

/// Whether a loan has a funding locker.
pub open spec fn has_locker(s: Seq<(u64, u64)>, loan: u64) -> bool {
    exists|i: int| 0 <= i < s.len() && #[trigger] s[i].0 == loan
}

/// The funding locker registered for `loan` (its first row).
pub open spec fn locker_for(s: Seq<(u64, u64)>, loan: u64) -> u64 {
    s[choose|i: int|
        0 <= i < s.len() && s[i].0 == loan && forall|j: int| 0 <= j < i ==> #[trigger] s[j].0 != loan].1
}

/// What supplying `amount` of `resource` does: `o` is the fund before,
/// `f` after, `r` the answer (see `DebtFund::supply_liquidity`).
pub open spec fn supply_outcome(
    o: DebtFund,
    f: DebtFund,
    resource: u64,
    amount: Decimal,
    r: Result<Decimal, DebtFundError>,
) -> bool {
    let t = tracking_for(amount@, o.tracking_supply@, o.vault@);
    let defined = o.tracking_supply@ == 0 || (in_range(
        mul_attos(amount@, o.tracking_supply@),
    ) && o.vault@ != 0);
    &&& resource != o.asset ==> r == Err::<Decimal, DebtFundError>(
        DebtFundError::WrongToken,
    )
    &&& resource == o.asset && amount@ == 0 ==> r == Err::<Decimal, DebtFundError>(
        DebtFundError::EmptyBucket,
    )
    &&& r is Ok <==> resource == o.asset && amount@ != 0 && defined && in_range(t)
        && in_range(o.tracking_supply@ + t) && in_range(o.vault@ + amount@)
    &&& resource == o.asset && amount@ != 0 && r is Err ==> r == Err::<
        Decimal,
        DebtFundError,
    >(DebtFundError::Arithmetic)
    &&& r is Err ==> f == o
    &&& r matches Ok(x) ==> {
        &&& x@ == t
        &&& f.tracking_supply@ == o.tracking_supply@ + t
        &&& f.vault@ == o.vault@ + amount@
        &&& f == (DebtFund {
            tracking_supply: f.tracking_supply,
            vault: f.vault,
            ..o
        })
    }
}

/// What burning `amount` tracking tokens (of `resource`) does: `o` is the
/// fund before, `f` after, `r` the answer (see `DebtFund::remove_liquidity`).
pub open spec fn remove_outcome(
    o: DebtFund,
    f: DebtFund,
    resource: u64,
    amount: Decimal,
    r: Result<Decimal, DebtFundError>,
) -> bool {
    let pct = div_attos(amount@, o.tracking_supply@);
    let out = mul_attos(o.vault@, pct);
    &&& resource != o.tracking_token ==> r == Err::<Decimal, DebtFundError>(
        DebtFundError::WrongToken,
    )
    &&& resource == o.tracking_token && !(o.tracking_supply@ != 0 && in_range(pct)
        && in_range(o.tracking_supply@ - amount@) && in_range(out)) ==> r == Err::<
        Decimal,
        DebtFundError,
    >(DebtFundError::Arithmetic)
    &&& r is Ok <==> resource == o.tracking_token && o.tracking_supply@ != 0 && in_range(
        pct,
    ) && in_range(o.tracking_supply@ - amount@) && in_range(out) && 0 <= out <= o.vault@
    &&& resource == o.tracking_token && o.tracking_supply@ != 0 && in_range(pct) && in_range(
        o.tracking_supply@ - amount@,
    ) && in_range(out) && !(0 <= out <= o.vault@) ==> r == Err::<Decimal, DebtFundError>(
        DebtFundError::InsufficientLiquidity,
    )
    &&& r is Err ==> f == o
    &&& r matches Ok(x) ==> {
        &&& x@ == out
        &&& f.tracking_supply@ == o.tracking_supply@ - amount@
        &&& f.vault@ == o.vault@ - out
        &&& f == (DebtFund {
            tracking_supply: f.tracking_supply,
            vault: f.vault,
            ..o
        })
    }
}

/// What claiming fees with `amount` tracking tokens (of `resource`) does:
/// `o` is the fund before, `f` after, `r` the answer (see
/// `DebtFund::claim_fees`).
pub open spec fn claim_outcome(
    o: DebtFund,
    f: DebtFund,
    resource: u64,
    amount: Decimal,
    r: Result<Vec<Decimal>, DebtFundError>,
) -> bool {
    let es = o.fee_vaults.entries@;
    let pct = div_attos(amount@, o.tracking_supply@);
    let ok_each = forall|i: int|
        0 <= i < es.len() ==> #[trigger] in_range(mul_attos(es[i].1@, pct)) && 0
            <= mul_attos(es[i].1@, pct) <= es[i].1@;
    &&& resource != o.tracking_token ==> r == Err::<Vec<Decimal>, DebtFundError>(
        DebtFundError::WrongToken,
    )
    &&& r is Ok <==> resource == o.tracking_token && o.tracking_supply@ != 0 && in_range(
        pct,
    ) && ok_each
    &&& resource == o.tracking_token && !(o.tracking_supply@ != 0 && in_range(pct)) ==> r == Err::<
        Vec<Decimal>,
        DebtFundError,
    >(DebtFundError::Arithmetic)
    &&& r matches Err(e) ==> e == DebtFundError::WrongToken || e == DebtFundError::Arithmetic || e
        == DebtFundError::InsufficientLiquidity
    &&& r is Err ==> f == o
    &&& r matches Ok(v) ==> {
        &&& v@.len() == es.len()
        &&& forall|i: int|
            0 <= i < es.len() ==> #[trigger] v@[i]@ == mul_attos(es[i].1@, pct)
        &&& f.fee_vaults.entries@.len() == es.len()
        &&& forall|i: int|
            0 <= i < es.len() ==> #[trigger] f.fee_vaults.entries@[i] == (
                es[i].0,
                Decimal { attos: (es[i].1@ - mul_attos(es[i].1@, pct)) as i128 },
            )
        &&& f == (DebtFund { fee_vaults: f.fee_vaults, ..o })
    }
}

impl DebtFund {
    /// Fee vault entries have distinct resources.
    pub open spec fn wf(&self) -> bool {
        self.fee_vaults.wf()
    }

    /// Opens a fund with `initial_funds` of `asset`; its creator receives
    /// 100 tracking tokens. Refused for an empty bucket.
    pub fn new(
        fund_manager_resource: u64,
        fund_manager_id: u64,
        asset: u64,
        initial_funds: Decimal,
        debt_fund_badge: u64,
        tracking_token: u64,
        loan_request_resource: u64,
        loan_nft_resource: u64,
        fund_manager_dashboard: Option<u64>,
    ) -> (r: Result<DebtFund, DebtFundError>)
        ensures
            r is Ok <==> initial_funds@ != 0,
            r is Err ==> r == Err::<DebtFund, DebtFundError>(DebtFundError::EmptyBucket),
            r matches Ok(f) ==> {
                &&& f.wf()
                &&& f.vault == initial_funds && f.asset == asset
                &&& f.tracking_supply@ == initial_tracking()
                &&& f.fund_manager_resource == fund_manager_resource
                &&& f.fund_manager_id == fund_manager_id
                &&& f.debt_fund_badge == debt_fund_badge && f.tracking_token == tracking_token
                &&& f.loan_request_resource == loan_request_resource
                &&& f.loan_nft_resource == loan_nft_resource
                &&& f.fund_manager_dashboard == fund_manager_dashboard
                &&& f.funding_lockers@.len() == 0 && f.fee_vaults@ == Map::<u64, int>::empty()
                &&& f.access_badge is None && f.next_loan_id == 1
            },
    {
        if initial_funds.is_zero() {
            return Err(DebtFundError::EmptyBucket);
        }
        Ok(DebtFund {
            fund_manager_resource,
            fund_manager_id,
            asset,
            vault: initial_funds,
            debt_fund_badge,
            tracking_token,
            tracking_supply: Decimal::from_u64(100),
            loan_request_resource,
            loan_nft_resource,
            next_loan_id: 1,
            funding_lockers: Vec::new(),
            access_badge: None,
            fee_vaults: Ledger::new(),
            fund_manager_dashboard,
        })
    }

    /// Supplies `amount` of `resource` to the fund; returns the tracking
    /// tokens minted (see `tracking_for`, with the vault before the
    /// deposit). Refused for another resource than the fund's asset or an
    /// empty bucket.
    pub fn supply_liquidity(&mut self, resource: u64, amount: Decimal) -> (r: Result<
        Decimal,
        DebtFundError,
    >)
        ensures
            supply_outcome(*old(self), *final(self), resource, amount, r),
    {
        if resource != self.asset {
            return Err(DebtFundError::WrongToken);
        }
        if amount.is_zero() {
            return Err(DebtFundError::EmptyBucket);
        }
        let t = if self.tracking_supply.is_zero() {
            Decimal::from_u64(100)
        } else {
            match amount.checked_mul(self.tracking_supply) {
                Some(p) => match p.checked_div(self.vault) {
                    Some(q) => q,
                    None => {
                        return Err(DebtFundError::Arithmetic);
                    },
                },
                None => {
                    return Err(DebtFundError::Arithmetic);
                },
            }
        };
        match (self.tracking_supply.checked_add(t), self.vault.checked_add(amount)) {
            (Some(s), Some(v)) => {
                self.tracking_supply = s;
                self.vault = v;
                Ok(t)
            },
            _ => Err(DebtFundError::Arithmetic),
        }
    }

    /// Burns `amount` tracking tokens (of `resource`) for the same share
    /// of the vault: the tokens over the tracking tokens in circulation,
    /// times the vault. Returns the asset paid out.
    pub fn remove_liquidity(&mut self, resource: u64, amount: Decimal) -> (r: Result<
        Decimal,
        DebtFundError,
    >)
        ensures
            remove_outcome(*old(self), *final(self), resource, amount, r),
    {
        if resource != self.tracking_token {
            return Err(DebtFundError::WrongToken);
        }
        let pct = match amount.checked_div(self.tracking_supply) {
            Some(p) => p,
            None => {
                return Err(DebtFundError::Arithmetic);
            },
        };
        let supply = match self.tracking_supply.checked_sub(amount) {
            Some(s) => s,
            None => {
                return Err(DebtFundError::Arithmetic);
            },
        };
        let out = match self.vault.checked_mul(pct) {
            Some(x) => x,
            None => {
                return Err(DebtFundError::Arithmetic);
            },
        };
        if out.lt(Decimal::zero()) || out.gt(self.vault) {
            return Err(DebtFundError::InsufficientLiquidity);
        }
        self.tracking_supply = supply;
        self.vault = self.vault.sub(out);
        Ok(out)
    }
    /// The funding locker of loan `loan`, if registered.
    fn locker_of(&self, loan: u64) -> (r: Option<u64>)
        ensures
            r is Some <==> has_locker(self.funding_lockers@, loan),
            r matches Some(a) ==> a == locker_for(self.funding_lockers@, loan),
    {
        match find_key(&self.funding_lockers, loan) {
            Some(i) => {
                let ghost s = self.funding_lockers@;
                let ghost k = choose|k: int|
                    0 <= k < s.len() && s[k].0 == loan && forall|j: int|
                        0 <= j < k ==> #[trigger] s[j].0 != loan;
                assert(s[i as int].0 == loan);
                assert(k == i as int) by {
                    if k < i {
                        assert(s[k].0 != loan);
                    } else if k > i {
                        assert(s[i as int].0 != loan);
                    }
                }
                Some(self.funding_lockers[i].1)
            },
            None => {
                assert(!has_locker(self.funding_lockers@, loan));
                None
            },
        }
    }

    /// Opens a funding locker (the component `locker`) for a loan of
    /// `loan_amount` to the borrower `borrower_id`, proved by the fund
    /// manager's badge (resource `proof_resource`, id `proof_id`): issues
    /// the loan's id and returns it with the loan's terms (see
    /// `new_loan_spec`; a loan is paid monthly over its term of one, three
    /// or six months).
    pub fn instantiate_funding_locker(
        &mut self,
        proof_resource: u64,
        proof_id: u64,
        borrower_id: u64,
        loan_amount: Decimal,
        asset: u64,
        collateral: u64,
        collateral_percent: Decimal,
        annualized_interest_rate: Decimal,
        draw_limit: Decimal,
        draw_minimum: Decimal,
        term_length: u64,
        origination_fee: Decimal,
        locker: u64,
    ) -> (r: Result<(u64, Loan), DebtFundError>)
        ensures
            ({
                let o = *old(self);
                let term_ok = term_length == 1 || term_length == 3 || term_length == 6;
                let nums = in_range(mul_attos(loan_amount@, origination_fee@)) && in_range(
                    loan_amount@ + origination_fee@,
                );
                &&& proof_resource != o.fund_manager_resource ==> r == Err::<
                    (u64, Loan),
                    DebtFundError,
                >(DebtFundError::Unauthorized)
                &&& proof_resource == o.fund_manager_resource && !term_ok ==> r == Err::<
                    (u64, Loan),
                    DebtFundError,
                >(DebtFundError::InvalidTerm)
                &&& r is Ok <==> proof_resource == o.fund_manager_resource && term_ok && nums
                    && o.fund_manager_dashboard is Some && o.next_loan_id < u64::MAX
                &&& r is Err ==> *final(self) == o
                &&& r matches Ok(x) ==> {
                    &&& x.0 == o.next_loan_id
                    &&& x.1 == new_loan_spec(
                        borrower_id,
                        proof_id,
                        loan_amount,
                        asset,
                        collateral,
                        collateral_percent,
                        annualized_interest_rate,
                        draw_limit,
                        draw_minimum,
                        term_length,
                        origination_fee,
                    )
                    &&& final(self).funding_lockers@ == o.funding_lockers@.push((x.0, locker))
                    &&& final(self).next_loan_id == o.next_loan_id + 1
                    &&& *final(self) == (DebtFund {
                        funding_lockers: final(self).funding_lockers,
                        next_loan_id: final(self).next_loan_id,
                        ..o
                    })
                }
            }),
    {
        if proof_resource != self.fund_manager_resource {
            return Err(DebtFundError::Unauthorized);
        }
        if !(term_length == 1 || term_length == 3 || term_length == 6) {
            return Err(DebtFundError::InvalidTerm);
        }
        let charged = match loan_amount.checked_mul(origination_fee) {
            Some(x) => x,
            None => {
                return Err(DebtFundError::Arithmetic);
            },
        };
        let remaining = match loan_amount.checked_add(origination_fee) {
            Some(x) => x,
            None => {
                return Err(DebtFundError::Arithmetic);
            },
        };
        if self.fund_manager_dashboard.is_none() {
            return Err(DebtFundError::NoDashboard);
        }
        if self.next_loan_id == u64::MAX {
            return Err(DebtFundError::Arithmetic);
        }
        let loan = Loan {
            borrower_id,
            lender_id: proof_id,
            principal_loan_amount: loan_amount,
            asset,
            collateral,
            collateral_percent,
            annualized_interest_rate,
            term_length,
            payments_remaining: term_length,
            payment_frequency: PaymentFrequency::Monthly,
            origination_fee,
            origination_fee_charged: charged,
            annualized_interest_expense: Decimal::zero(),
            accrued_interest_expense: Decimal::zero(),
            remaining_balance: remaining,
            draw_limit,
            draw_minimum,
            last_draw: 0,
            collateral_amount: Decimal::zero(),
            collateral_amount_usd: Decimal::zero(),
            health_factor: Decimal::zero(),
            loan_status: Status::Current,
        };
        let id = self.next_loan_id;
        self.next_loan_id = id + 1;
        self.funding_lockers.push((id, locker));
        Ok((id, loan))
    }

    /// Takes back into the vault the liquidity (`received` of `resource`)
    /// that the funding locker of loan `loan` returned; only with the fund
    /// badge. Returns `false`, changing nothing, when the loan has no
    /// locker.
    pub fn transfer_liquidity(
        &mut self,
        badge: u64,
        loan: u64,
        resource: u64,
        received: Decimal,
    ) -> (r: Result<bool, DebtFundError>)
        ensures
            ({
                let o = *old(self);
                &&& badge != o.debt_fund_badge ==> r == Err::<bool, DebtFundError>(
                    DebtFundError::Unauthorized,
                )
                &&& badge == o.debt_fund_badge && !has_locker(o.funding_lockers@, loan) ==> r == Ok::<
                    bool,
                    DebtFundError,
                >(false) && *final(self) == o
                &&& badge == o.debt_fund_badge && has_locker(o.funding_lockers@, loan) ==> (r
                    == Ok::<bool, DebtFundError>(true) <==> o.access_badge is Some && resource
                    == o.asset && received@ != 0 && in_range(o.vault@ + received@))
                &&& r is Err ==> *final(self) == o
                &&& r == Ok::<bool, DebtFundError>(true) ==> final(self).vault@ == o.vault@
                    + received@ && *final(self) == (DebtFund { vault: final(self).vault, ..o })
            }),
    {
        if badge != self.debt_fund_badge {
            return Err(DebtFundError::Unauthorized);
        }
        if self.locker_of(loan).is_none() {
            return Ok(false);
        }
        if self.access_badge.is_none() {
            return Err(DebtFundError::NoAccessBadge);
        }
        if resource != self.asset {
            return Err(DebtFundError::WrongToken);
        }
        if received.is_zero() {
            return Err(DebtFundError::EmptyBucket);
        }
        match self.vault.checked_add(received) {
            Some(v) => {
                self.vault = v;
                Ok(true)
            },
            None => Err(DebtFundError::Arithmetic),
        }
    }

    /// Sends `amount` of the vault to the funding locker of loan `loan`;
    /// only with the fund badge. Returns the locker.
    pub fn fund_loan(&mut self, badge: u64, amount: Decimal, loan: u64) -> (r: Result<
        u64,
        DebtFundError,
    >)
        ensures
            ({
                let o = *old(self);
                &&& badge != o.debt_fund_badge ==> r == Err::<u64, DebtFundError>(
                    DebtFundError::Unauthorized,
                )
                &&& badge == o.debt_fund_badge && !(0 <= amount@ <= o.vault@) ==> r == Err::<
                    u64,
                    DebtFundError,
                >(DebtFundError::InsufficientLiquidity)
                &&& badge == o.debt_fund_badge && 0 <= amount@ <= o.vault@ && !has_locker(
                    o.funding_lockers@,
                    loan,
                ) ==> r == Err::<u64, DebtFundError>(DebtFundError::NoLocker)
                &&& r is Ok <==> badge == o.debt_fund_badge && 0 <= amount@ <= o.vault@
                    && has_locker(o.funding_lockers@, loan)
                &&& r is Err ==> *final(self) == o
                &&& r matches Ok(a) ==> a == locker_for(o.funding_lockers@, loan)
                    && final(self).vault@ == o.vault@ - amount@ && *final(self) == (DebtFund {
                    vault: final(self).vault,
                    ..o
                })
            }),
    {
        if badge != self.debt_fund_badge {
            return Err(DebtFundError::Unauthorized);
        }
        if amount.lt(Decimal::zero()) || amount.gt(self.vault) {
            return Err(DebtFundError::InsufficientLiquidity);
        }
        let locker = match self.locker_of(loan) {
            Some(a) => a,
            None => {
                return Err(DebtFundError::NoLocker);
            },
        };
        self.vault = self.vault.sub(amount);
        Ok(locker)
    }

    /// The funding locker of loan `loan` to act on (approve or reject a
    /// draw request, update the loan); only with the fund badge.
    pub fn locker_for_admin(&self, badge: u64, loan: u64) -> (r: Result<u64, DebtFundError>)
        ensures
            badge != self.debt_fund_badge ==> r == Err::<u64, DebtFundError>(
                DebtFundError::Unauthorized,
            ),
            badge == self.debt_fund_badge && !has_locker(self.funding_lockers@, loan) ==> r == Err::<
                u64,
                DebtFundError,
            >(DebtFundError::NoLocker),
            r is Ok <==> badge == self.debt_fund_badge && has_locker(self.funding_lockers@, loan),
            r matches Ok(a) ==> a == locker_for(self.funding_lockers@, loan),
    {
        if badge != self.debt_fund_badge {
            return Err(DebtFundError::Unauthorized);
        }
        match self.locker_of(loan) {
            Some(a) => Ok(a),
            None => Err(DebtFundError::NoLocker),
        }
    }

    /// Keeps the access badge that lets the fund call its lockers.
    pub fn deposit_access_badge(&mut self, access_badge: u64)
        ensures
            *final(self) == (DebtFund { access_badge: Some(access_badge), ..*old(self) }),
    {
        self.access_badge = Some(access_badge);
    }

    /// Keeps the fees (`amount` of `resource`) that the funding locker of
    /// loan `loan` handed over, in the fee vault of that resource; only
    /// with the fund badge.
    pub fn transfer_fees(&mut self, badge: u64, loan: u64, resource: u64, amount: Decimal) -> (r:
        Result<(), DebtFundError>)
        requires
            old(self).wf(),
        ensures
            final(self).wf(),
            ({
                let o = *old(self);
                let held = if o.fee_vaults@.dom().contains(resource) {
                    o.fee_vaults@[resource]
                } else {
                    0
                };
                &&& badge != o.debt_fund_badge ==> r == Err::<(), DebtFundError>(
                    DebtFundError::Unauthorized,
                )
                &&& badge == o.debt_fund_badge && !has_locker(o.funding_lockers@, loan) ==> r == Err::<
                    (),
                    DebtFundError,
                >(DebtFundError::NoLocker)
                &&& r is Ok <==> badge == o.debt_fund_badge && has_locker(o.funding_lockers@, loan)
                    && in_range(held + amount@)
                &&& r is Err ==> *final(self) == o
                &&& r is Ok ==> final(self).fee_vaults@ == o.fee_vaults@.insert(
                    resource,
                    held + amount@,
                ) && *final(self) == (DebtFund { fee_vaults: final(self).fee_vaults, ..o })
            }),
    {
        if badge != self.debt_fund_badge {
            return Err(DebtFundError::Unauthorized);
        }
        if self.locker_of(loan).is_none() {
            return Err(DebtFundError::NoLocker);
        }
        let held = match self.fee_vaults.get(resource) {
            Some(h) => h,
            None => Decimal::zero(),
        };
        match held.checked_add(amount) {
            Some(n) => {
                self.fee_vaults.set(resource, n);
                Ok(())
            },
            None => Err(DebtFundError::Arithmetic),
        }
    }

    /// Pays the holder of `amount` tracking tokens (of `resource`, shown by
    /// proof, not burned) their share of every fee vault: the tokens over
    /// the tracking tokens in circulation. Returns the fees paid, vault by
    /// vault.
    #[verifier::loop_isolation(false)]
    pub fn claim_fees(&mut self, resource: u64, amount: Decimal) -> (r: Result<
        Vec<Decimal>,
        DebtFundError,
    >)
        requires
            old(self).wf(),
        ensures
            final(self).wf(),
            claim_outcome(*old(self), *final(self), resource, amount, r),
    {
        if resource != self.tracking_token {
            return Err(DebtFundError::WrongToken);
        }
        let pct = match amount.checked_div(self.tracking_supply) {
            Some(p) => p,
            None => {
                return Err(DebtFundError::Arithmetic);
            },
        };
        let ghost es = self.fee_vaults.entries@;
        let n = self.fee_vaults.entries.len();
        let mut out: Vec<Decimal> = Vec::new();
        let mut left: Vec<(u64, Decimal)> = Vec::new();
        let mut i: usize = 0;
        while i < n
            invariant
                n == es.len(),
                es == self.fee_vaults.entries@,
                0 <= i <= n,
                out@.len() == i,
                left@.len() == i,
                forall|j: int| 0 <= j < i ==> #[trigger] out@[j]@ == mul_attos(es[j].1@, pct@),
                forall|j: int|
                    0 <= j < i ==> #[trigger] in_range(mul_attos(es[j].1@, pct@)) && 0 <= mul_attos(
                        es[j].1@,
                        pct@,
                    ) <= es[j].1@,
                forall|j: int|
                    0 <= j < i ==> #[trigger] left@[j] == (
                        es[j].0,
                        Decimal { attos: (es[j].1@ - mul_attos(es[j].1@, pct@)) as i128 },
                    ),
            decreases n - i,
        {
            let (t, held) = self.fee_vaults.entries[i];
            match held.checked_mul(pct) {
                Some(x) => {
                    if x.lt(Decimal::zero()) || x.gt(held) {
                        assert(!(0 <= mul_attos(es[i as int].1@, pct@) <= es[i as int].1@));
                        return Err(DebtFundError::InsufficientLiquidity);
                    }
                    assert(held == es[i as int].1 && t == es[i as int].0);
                    assert(in_range(mul_attos(es[i as int].1@, pct@)) && 0 <= mul_attos(
                        es[i as int].1@,
                        pct@,
                    ) <= es[i as int].1@);
                    out.push(x);
                    left.push((t, held.sub(x)));
                    assert(left@[i as int] == (
                        es[i as int].0,
                        Decimal { attos: (es[i as int].1@ - mul_attos(es[i as int].1@, pct@)) as i128 },
                    ));
                },
                None => {
                    assert(!in_range(mul_attos(es[i as int].1@, pct@)));
                    return Err(DebtFundError::Arithmetic);
                },
            }
            i = i + 1;
        }
        proof {
            assert forall|a: int, b: int|
                0 <= a < left@.len() && 0 <= b < left@.len() && a != b implies left@[a].0
                != left@[b].0 by {
                assert(left@[a].0 == es[a].0);
                assert(left@[b].0 == es[b].0);
            }
        }
        self.fee_vaults = Ledger { entries: left };
        Ok(out)
    }
}

} // verus!
