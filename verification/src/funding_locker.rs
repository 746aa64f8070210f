//! The funding locker of one loan: it holds the borrower's collateral, the
//! lender's proceeds, the borrower's draws and the fees and payments that
//! come back.
//!
//! Every request that fails a check or overflows is refused with
//! an error and leaves the locker unchanged, as the aborted transaction
//! would.
use vstd::prelude::*;
use crate::decimal::{Decimal, in_range, mul_attos, div_attos, lemma_floor_bounds};
use crate::structs::{Loan, Status};

verus! {

/// Why the locker refused a request.
#[derive(Clone, Copy, Debug, PartialEq, Eq, Structural)]
pub enum LockerError {
    /// The proof is not of this locker's loan request NFT.
    IncorrectProof,
    /// The tokens deposited are not the loan's collateral.
    IncorrectCollateral,
    /// The collateral requirement was met before and the Loan NFT has left.
    LoanNftReleased,
    /// The proceeds are not in the loan's asset.
    IncorrectFundingToken,
    /// The badge is not this locker's Loan NFT.
    IncorrectLoanBadge,
    /// The proceeds have not been funded in full.
    NotFunded,
    /// The draw asked exceeds the draw limit.
    ExceedsDrawLimit,
    /// The draw asked is below the draw minimum.
    BelowDrawMinimum,
    /// A draw request is already waiting.
    DrawRequestPending,
    /// No draw request is waiting.
    NoDrawRequest,
    /// The proceeds left do not cover the draw.
    InsufficientProceeds,
    /// The draw does not cover the origination fee.
    InsufficientDraw,
    /// The payment is not in the loan's asset.
    IncorrectPaymentToken,
    /// Less than the draw minimum has been drawn.
    NotDrawn,
    /// Every payment has been made.
    NoPaymentsRemaining,
    /// A last payment must cover the balance and the interest owed.
    InsufficientPayment,
    /// No fee has been collected.
    NoFees,
    /// The loan has not been paid off.
    LoanActive,
    /// A vault cannot release a negative amount.
    NegativeAmount,
    /// The epoch given is before the last draw.
    EpochBeforeLastDraw,
    /// The collateral still meets the requirement.
    SufficientlyCollateralized,
}

/// The state of a funding locker. The vault balances are `Decimal`s; the
/// Loan NFT's data is `loan`, and `loan_nft_held` tells whether the NFT is
/// still in the locker.
#[derive(Clone, Copy, Debug)]
pub struct FundingLocker {
    pub loan_request_nft_address: u64,
    pub loan_nft_address: u64,
    pub asset_address: u64,
    pub collateral_address: u64,
    pub loan: Loan,
    pub loan_nft_held: bool,
    pub loan_proceeds: Decimal,
    pub draw_limit: Decimal,
    pub draw_minimum: Decimal,
    pub loan_repay: Decimal,
    pub grace_period: u64,
    pub collateral: Decimal,
    pub proceed_status: Status,
    pub draw_request: Option<Decimal>,
    pub draw_vault: Decimal,
    pub fee_vault: Decimal,
}

/// The interest that accrues on `balance` at `rate` over `lapse` epochs:
/// `balance * rate * lapse`.
pub open spec fn interest(balance: int, rate: int, lapse: int) -> int {
    mul_attos(mul_attos(balance, rate), lapse * 1_000_000_000_000_000_000)
}

/// Whether a loan worth `loan_value` against collateral worth
/// `collateral_value` falls below the required collateral percent.
pub open spec fn undercollateralized(
    balance: int,
    loan_price: int,
    collateral: int,
    collateral_price: int,
    percent: int,
) -> bool {
    div_attos(mul_attos(balance, loan_price), mul_attos(collateral, collateral_price)) < percent
}

impl FundingLocker {
    /// Vault balances are never negative.
    pub open spec fn wf(&self) -> bool {
        &&& self.loan_proceeds@ >= 0
        &&& self.loan_repay@ >= 0
        &&& self.collateral@ >= 0
        &&& self.draw_vault@ >= 0
        &&& self.fee_vault@ >= 0
    }

    /// A locker for `loan`, holding its Loan NFT, with empty vaults and
    /// unfunded proceeds; the grace period is ten epochs.
    pub fn new(loan_request_nft_address: u64, loan_nft_address: u64, loan: Loan) -> (r:
        FundingLocker)
        ensures
            r.wf(),
            r == (FundingLocker {
                loan_request_nft_address,
                loan_nft_address,
                asset_address: loan.asset,
                collateral_address: loan.collateral,
                loan,
                loan_nft_held: true,
                loan_proceeds: Decimal { attos: 0 },
                draw_limit: loan.draw_limit,
                draw_minimum: loan.draw_minimum,
                loan_repay: Decimal { attos: 0 },
                grace_period: 10,
                collateral: Decimal { attos: 0 },
                proceed_status: Status::Unfunded,
                draw_request: None,
                draw_vault: Decimal { attos: 0 },
                fee_vault: Decimal { attos: 0 },
            }),
    {
        FundingLocker {
            loan_request_nft_address,
            loan_nft_address,
            asset_address: loan.asset,
            collateral_address: loan.collateral,
            loan,
            loan_nft_held: true,
            loan_proceeds: Decimal::zero(),
            draw_limit: loan.draw_limit,
            draw_minimum: loan.draw_minimum,
            loan_repay: Decimal::zero(),
            grace_period: 10,
            collateral: Decimal::zero(),
            proceed_status: Status::Unfunded,
            draw_request: None,
            draw_vault: Decimal::zero(),
            fee_vault: Decimal::zero(),
        }
    }

    /// The borrower deposits `amount` collateral of `collateral_resource`,
    /// proving ownership of the loan request with a proof of `proof_resource`.
    /// Returns true when the collateral now meets the required percent of the
    /// principal: the loan becomes ready to fund and its Loan NFT is handed
    /// to the borrower.
    pub fn deposit_collateral(&mut self, proof_resource: u64, collateral_resource: u64, amount:
        Decimal) -> (r: Result<bool, LockerError>)
        requires
            old(self).wf(),
            amount@ >= 0,
            old(self).loan.principal_loan_amount@ != 0,
            in_range(old(self).collateral@ + amount@),
            in_range(old(self).loan.collateral_amount@ + amount@),
            in_range(
                div_attos(old(self).collateral@ + amount@, old(self).loan.principal_loan_amount@),
            ),
        ensures
            final(self).wf(),
            r is Err ==> *final(self) == *old(self),
            proof_resource != old(self).loan_request_nft_address ==> r == Err::<bool, LockerError>(
                LockerError::IncorrectProof,
            ),
            proof_resource == old(self).loan_request_nft_address && collateral_resource != old(self).collateral_address ==> r == Err::<bool, LockerError>(
                LockerError::IncorrectCollateral,
            ),
            ({
                let met = div_attos(
                    old(self).collateral@ + amount@,
                    old(self).loan.principal_loan_amount@,
                ) >= old(self).loan.collateral_percent@;
                let checks = proof_resource == old(self).loan_request_nft_address
                    && collateral_resource == old(self).collateral_address;
                &&& checks && met && !old(self).loan_nft_held ==> r == Err::<bool, LockerError>(
                    LockerError::LoanNftReleased,
                )
                &&& checks && (!met || old(self).loan_nft_held) ==> r == Ok::<bool, LockerError>(
                    met,
                ) && final(self).collateral@ == old(self).collateral@ + amount@
                    && final(self).loan.collateral_amount@ == old(self).loan.collateral_amount@
                    + amount@ && final(self).loan.loan_status == (if met {
                    Status::ReadyToFund
                } else {
                    old(self).loan.loan_status
                }) && final(self).loan_nft_held == (old(self).loan_nft_held && !met)
                    && final(self).loan_proceeds == old(self).loan_proceeds
                    && final(self).proceed_status == old(self).proceed_status
                    && final(self).fee_vault == old(self).fee_vault && final(self).draw_vault == old(self).draw_vault && final(self).draw_request == old(self).draw_request
                    && final(self).loan.remaining_balance == old(self).loan.remaining_balance
            }),
    {
        if proof_resource != self.loan_request_nft_address {
            return Err(LockerError::IncorrectProof);
        }
        if collateral_resource != self.collateral_address {
            return Err(LockerError::IncorrectCollateral);
        }
        let new_collateral = self.collateral.add(amount);
        let ratio = new_collateral.div(self.loan.principal_loan_amount);
        let met = ratio.ge(self.loan.collateral_percent);
        if met && !self.loan_nft_held {
            return Err(LockerError::LoanNftReleased);
        }
        self.loan.collateral_amount = self.loan.collateral_amount.add(amount);
        self.collateral = new_collateral;
        if met {
            self.loan.loan_status = Status::ReadyToFund;
            self.loan_nft_held = false;
        }
        Ok(met)
    }

    /// The lender funds the loan with `amount` of `resource`. Returns what
    /// exceeds the principal, which goes back. The proceeds become funded only
    /// when they equal the principal exactly.
    pub fn fund_loan(&mut self, resource: u64, amount: Decimal) -> (r: Result<
        Decimal,
        LockerError,
    >)
        requires
            old(self).wf(),
            amount@ >= 0,
            old(self).loan.principal_loan_amount@ >= 0,
            in_range(old(self).loan_proceeds@ + amount@),
        ensures
            final(self).wf(),
            resource != old(self).asset_address <==> r is Err,
            r is Err ==> r == Err::<Decimal, LockerError>(LockerError::IncorrectFundingToken)
                && *final(self) == *old(self),
            ({
                let total = old(self).loan_proceeds@ + amount@;
                let principal = old(self).loan.principal_loan_amount@;
                r matches Ok(over) ==> {
                    &&& over@ == (if total > principal {
                        total - principal
                    } else {
                        0
                    })
                    &&& final(self).loan_proceeds@ == (if total > principal {
                        principal
                    } else {
                        total
                    })
                    &&& final(self).proceed_status == (if total == principal {
                        Status::Funded
                    } else {
                        old(self).proceed_status
                    })
                    &&& *final(self) == (FundingLocker {
                        loan_proceeds: final(self).loan_proceeds,
                        proceed_status: final(self).proceed_status,
                        ..*old(self)
                    })
                }
            }),
    {
        if resource != self.asset_address {
            return Err(LockerError::IncorrectFundingToken);
        }
        let principal = self.loan.principal_loan_amount;
        self.loan_proceeds = self.loan_proceeds.add(amount);
        if self.loan_proceeds.lt(principal) {
            Ok(Decimal::zero())
        } else if self.loan_proceeds.gt(principal) {
            let over = self.loan_proceeds.sub(principal);
            self.loan_proceeds = principal;
            Ok(over)
        } else {
            self.proceed_status = Status::Funded;
            Ok(Decimal::zero())
        }
    }

    /// The borrower, presenting `badge_resource`, asks to draw `amount`.
    /// Only one request may wait at a time.
    pub fn draw_request(&mut self, badge_resource: u64, amount: Decimal) -> (r: Result<
        (),
        LockerError,
    >)
        requires
            old(self).wf(),
        ensures
            final(self).wf(),
            r is Err ==> *final(self) == *old(self),
            badge_resource != old(self).loan_nft_address ==> r == Err::<(), LockerError>(
                LockerError::IncorrectLoanBadge,
            ),
            badge_resource == old(self).loan_nft_address && old(self).proceed_status
                != Status::Funded ==> r == Err::<(), LockerError>(LockerError::NotFunded),
            badge_resource == old(self).loan_nft_address && old(self).proceed_status
                == Status::Funded && amount@ > old(self).draw_limit@ ==> r == Err::<
                (),
                LockerError,
            >(LockerError::ExceedsDrawLimit),
            badge_resource == old(self).loan_nft_address && old(self).proceed_status
                == Status::Funded && amount@ <= old(self).draw_limit@ && amount@ < old(self).draw_minimum@ ==> r == Err::<(), LockerError>(LockerError::BelowDrawMinimum),
            badge_resource == old(self).loan_nft_address && old(self).proceed_status
                == Status::Funded && old(self).draw_minimum@ <= amount@ <= old(self).draw_limit@
                && old(self).draw_request is Some ==> r == Err::<(), LockerError>(
                LockerError::DrawRequestPending,
            ),
            r is Ok <==> (badge_resource == old(self).loan_nft_address && old(self).proceed_status
                == Status::Funded && old(self).draw_minimum@ <= amount@ <= old(self).draw_limit@
                && old(self).draw_request is None),
            r is Ok ==> *final(self) == (FundingLocker {
                draw_request: Some(amount),
                ..*old(self)
            }),
    {
        if badge_resource != self.loan_nft_address {
            return Err(LockerError::IncorrectLoanBadge);
        }
        if self.proceed_status != Status::Funded {
            return Err(LockerError::NotFunded);
        }
        if amount.gt(self.draw_limit) {
            return Err(LockerError::ExceedsDrawLimit);
        }
        if amount.lt(self.draw_minimum) {
            return Err(LockerError::BelowDrawMinimum);
        }
        if self.draw_request.is_some() {
            return Err(LockerError::DrawRequestPending);
        }
        self.draw_request = Some(amount);
        Ok(())
    }

    /// The amount of the waiting draw request, if there is one.
    pub fn view_draw_request(&self) -> (r: Option<Decimal>)
        ensures
            r == self.draw_request,
    {
        self.draw_request
    }

    /// The fund manager approves the waiting draw request: its amount moves
    /// from the proceeds to the draw vault.
    pub fn approve_draw_request(&mut self) -> (r: Result<(), LockerError>)
        requires
            old(self).wf(),
            old(self).draw_request matches Some(a) ==> in_range(old(self).draw_vault@ + a@),
        ensures
            final(self).wf(),
            r is Err ==> *final(self) == *old(self),
            old(self).draw_request is None ==> r == Err::<(), LockerError>(
                LockerError::NoDrawRequest,
            ),
            old(self).draw_request matches Some(a) ==> (a@ < 0 <==> r == Err::<(), LockerError>(
                LockerError::NegativeAmount,
            )),
            old(self).draw_request matches Some(a) ==> (0 <= a@ && a@ > old(self).loan_proceeds@
                <==> r == Err::<(), LockerError>(LockerError::InsufficientProceeds)),
            old(self).draw_request matches Some(a) ==> (0 <= a@ <= old(self).loan_proceeds@ ==> r
                is Ok
                && *final(self) == (FundingLocker {
                loan_proceeds: Decimal { attos: (old(self).loan_proceeds@ - a@) as i128 },
                draw_vault: Decimal { attos: (old(self).draw_vault@ + a@) as i128 },
                draw_request: None,
                ..*old(self)
            })),
    {
        match self.draw_request {
            None => Err(LockerError::NoDrawRequest),
            Some(amount) => {
                if amount.lt(Decimal::zero()) {
                    return Err(LockerError::NegativeAmount);
                }
                if amount.gt(self.loan_proceeds) {
                    return Err(LockerError::InsufficientProceeds);
                }
                self.loan_proceeds = self.loan_proceeds.sub(amount);
                self.draw_vault = self.draw_vault.add(amount);
                self.draw_request = None;
                Ok(())
            },
        }
    }

    /// The fund manager rejects the waiting draw request.
    pub fn reject_draw_request(&mut self) -> (r: Result<(), LockerError>)
        requires
            old(self).wf(),
        ensures
            final(self).wf(),
            old(self).draw_request is None <==> r is Err,
            r is Err ==> r == Err::<(), LockerError>(LockerError::NoDrawRequest) && *final(self)
                == *old(self),
            r is Ok ==> *final(self) == (FundingLocker { draw_request: None, ..*old(self) }),
    {
        if self.draw_request.is_none() {
            return Err(LockerError::NoDrawRequest);
        }
        self.draw_request = None;
        Ok(())
    }

    /// The borrower collects the approved draw at `epoch`. The origination
    /// fee is taken from it for the fee vault; the whole draw is added to the
    /// loan balance. Returns what the borrower receives.
    pub fn receive_draw(&mut self, badge_resource: u64, epoch: u64) -> (r: Result<
        Decimal,
        LockerError,
    >)
        requires
            old(self).wf(),
            in_range(old(self).loan.remaining_balance@ + old(self).draw_vault@),
            in_range(old(self).fee_vault@ + old(self).loan.origination_fee_charged@),
        ensures
            final(self).wf(),
            r is Err ==> *final(self) == *old(self),
            badge_resource != old(self).loan_nft_address ==> r == Err::<Decimal, LockerError>(
                LockerError::IncorrectLoanBadge,
            ),
            badge_resource == old(self).loan_nft_address ==> (old(self).loan.origination_fee_charged@ < 0 <==> r == Err::<Decimal, LockerError>(
                LockerError::NegativeAmount,
            )),
            badge_resource == old(self).loan_nft_address ==> (0 <= old(self).loan.origination_fee_charged@ && old(self).loan.origination_fee_charged@ > old(self).draw_vault@ <==> r == Err::<Decimal, LockerError>(LockerError::InsufficientDraw)),
            r matches Ok(got) ==> {
                let fee = old(self).loan.origination_fee_charged@;
                &&& got@ == old(self).draw_vault@ - fee
                &&& final(self).draw_vault@ == 0
                &&& final(self).fee_vault@ == old(self).fee_vault@ + fee
                &&& final(self).loan.remaining_balance@ == old(self).loan.remaining_balance@ + old(self).draw_vault@
                &&& final(self).loan.last_draw == epoch
                &&& final(self).loan == (Loan {
                    remaining_balance: final(self).loan.remaining_balance,
                    last_draw: epoch,
                    ..old(self).loan
                })
                &&& *final(self) == (FundingLocker {
                    draw_vault: final(self).draw_vault,
                    fee_vault: final(self).fee_vault,
                    loan: final(self).loan,
                    ..*old(self)
                })
            },
    {
        if badge_resource != self.loan_nft_address {
            return Err(LockerError::IncorrectLoanBadge);
        }
        let draw = self.draw_vault;
        let fee = self.loan.origination_fee_charged;
        if fee.lt(Decimal::zero()) {
            return Err(LockerError::NegativeAmount);
        }
        if fee.gt(draw) {
            return Err(LockerError::InsufficientDraw);
        }
        self.draw_vault = Decimal::zero();
        self.loan.remaining_balance = self.loan.remaining_balance.add(draw);
        self.loan.last_draw = epoch;
        self.fee_vault = self.fee_vault.add(fee);
        Ok(draw.sub(fee))
    }

    /// The fund manager accrues interest at `epoch`: the balance times the
    /// interest rate times the epochs since the last draw.
    pub fn update_loan(&mut self, epoch: u64) -> (r: Result<(), LockerError>)
        requires
            old(self).wf(),
            epoch >= old(self).loan.last_draw ==> {
                let lapse = epoch - old(self).loan.last_draw;
                let b = old(self).loan.remaining_balance@;
                let rate = old(self).loan.annualized_interest_rate@;
                &&& in_range(mul_attos(b, rate))
                &&& in_range(interest(b, rate, lapse))
                &&& in_range(old(self).loan.accrued_interest_expense@ + interest(b, rate, lapse))
            },
        ensures
            final(self).wf(),
            epoch < old(self).loan.last_draw <==> r is Err,
            r is Err ==> r == Err::<(), LockerError>(LockerError::EpochBeforeLastDraw) && *final(self) == *old(self),
            r is Ok ==> final(self).loan.accrued_interest_expense@ == old(self).loan.accrued_interest_expense@ + interest(
                old(self).loan.remaining_balance@,
                old(self).loan.annualized_interest_rate@,
                epoch - old(self).loan.last_draw,
            ) && final(self).loan == (Loan {
                accrued_interest_expense: final(self).loan.accrued_interest_expense,
                ..old(self).loan
            }) && *final(self) == (FundingLocker { loan: final(self).loan, ..*old(self) }),
    {
        if epoch < self.loan.last_draw {
            return Err(LockerError::EpochBeforeLastDraw);
        }
        let lapse = epoch - self.loan.last_draw;
        let expense = self.loan.remaining_balance.mul(self.loan.annualized_interest_rate).mul(
            Decimal::from_u64(lapse),
        );
        self.loan.accrued_interest_expense = self.loan.accrued_interest_expense.add(expense);
        Ok(())
    }

    /// The borrower pays `amount` of `resource` on the loan.
    ///
    /// With one payment left the payment must cover the balance and the
    /// interest owed; the loan is paid off and any excess is returned (`None`
    /// for an exact payment). With more payments left only interest is owed: an excess
    /// over it is returned and a payment is counted, otherwise the interest
    /// owed goes down by the payment.
    pub fn make_payment(&mut self, badge_resource: u64, resource: u64, amount: Decimal) -> (r:
        Result<Option<Decimal>, LockerError>)
        requires
            old(self).wf(),
            amount@ >= 0,
            in_range(old(self).loan.accrued_interest_expense@ + old(self).loan.remaining_balance@),
            in_range(old(self).fee_vault@ + amount@),
            in_range(old(self).loan.accrued_interest_expense@ - amount@),
            in_range(amount@ - old(self).loan.accrued_interest_expense@),
            old(self).loan.payments_remaining == 1 && amount@ > old(
                self).loan.accrued_interest_expense@ + old(self).loan.remaining_balance@ ==> old(
                self).loan.accrued_interest_expense@ + old(self).loan.remaining_balance@ >= 0,
            old(self).loan.payments_remaining > 1 && amount@ > old(
                self).loan.accrued_interest_expense@ ==> old(self).loan.accrued_interest_expense@
                >= 0,
            in_range(
                amount@ - (old(self).loan.accrued_interest_expense@ + old(
                    self).loan.remaining_balance@),
            ),
        ensures
            final(self).wf(),
            r is Err ==> *final(self) == *old(self),
            ({
                let o = old(self);
                let ok_badge = badge_resource == o.loan_nft_address;
                let ok_token = resource == o.asset_address;
                let funded = o.proceed_status == Status::Funded;
                let drawn = o.loan.remaining_balance@ >= o.loan.draw_minimum@;
                let left = o.loan.payments_remaining;
                let total = o.loan.accrued_interest_expense@ + o.loan.remaining_balance@;
                let accrued = o.loan.accrued_interest_expense@;
                &&& !ok_badge ==> r == Err::<Option<Decimal>, LockerError>(
                    LockerError::IncorrectLoanBadge,
                )
                &&& ok_badge && !ok_token ==> r == Err::<Option<Decimal>, LockerError>(
                    LockerError::IncorrectPaymentToken,
                )
                &&& ok_badge && ok_token && !funded ==> r == Err::<Option<Decimal>, LockerError>(
                    LockerError::NotFunded,
                )
                &&& ok_badge && ok_token && funded && !drawn ==> r == Err::<
                    Option<Decimal>,
                    LockerError,
                >(LockerError::NotDrawn)
                &&& ok_badge && ok_token && funded && drawn && left == 0 ==> r == Err::<
                    Option<Decimal>,
                    LockerError,
                >(LockerError::NoPaymentsRemaining)
                &&& ok_badge && ok_token && funded && drawn && left == 1 && amount@ < total ==> r
                    == Err::<Option<Decimal>, LockerError>(LockerError::InsufficientPayment)
                &&& ok_badge && ok_token && funded && drawn && left == 1 && amount@ == total ==> r
                    == Ok::<Option<Decimal>, LockerError>(None)
                &&& ok_badge && ok_token && funded && drawn && left == 1 && amount@ > total ==> (r
                    matches Ok(Some(back)) && back@ == amount@ - total)
                &&& ok_badge && ok_token && funded && drawn && left == 1 && amount@ >= total ==> (
                    final(self).fee_vault@
                    == o.fee_vault@ + total && final(self).loan.remaining_balance@ == 0
                    && final(self).loan.accrued_interest_expense@ == 0
                    && final(self).loan.payments_remaining == 0 && final(self).loan.loan_status
                    == Status::PaidOff && final(self).loan == (Loan {
                    remaining_balance: final(self).loan.remaining_balance,
                    accrued_interest_expense: final(self).loan.accrued_interest_expense,
                    payments_remaining: 0,
                    loan_status: Status::PaidOff,
                    ..o.loan
                }) && *final(self) == (FundingLocker {
                    fee_vault: final(self).fee_vault,
                    loan: final(self).loan,
                    ..*o
                }))
                &&& ok_badge && ok_token && funded && drawn && left > 1 && amount@ > accrued ==> (r
                    matches Ok(Some(back)) && back@ == amount@ - accrued && final(self).fee_vault@
                    == o.fee_vault@ + accrued && final(self).loan.accrued_interest_expense@ == 0
                    && final(self).loan.payments_remaining == left - 1 && final(self).loan == (
                Loan {
                    accrued_interest_expense: final(self).loan.accrued_interest_expense,
                    payments_remaining: final(self).loan.payments_remaining,
                    ..o.loan
                }) && *final(self) == (FundingLocker {
                    fee_vault: final(self).fee_vault,
                    loan: final(self).loan,
                    ..*o
                }))
                &&& ok_badge && ok_token && funded && drawn && left > 1 && amount@ <= accrued ==> (r
                    == Ok::<Option<Decimal>, LockerError>(None) && final(self).fee_vault@
                    == o.fee_vault@ + amount@ && final(self).loan.accrued_interest_expense@
                    == accrued - amount@ && final(self).loan == (Loan {
                    accrued_interest_expense: final(self).loan.accrued_interest_expense,
                    ..o.loan
                }) && *final(self) == (FundingLocker {
                    fee_vault: final(self).fee_vault,
                    loan: final(self).loan,
                    ..*o
                }))
            }),
    {
        if badge_resource != self.loan_nft_address {
            return Err(LockerError::IncorrectLoanBadge);
        }
        if resource != self.asset_address {
            return Err(LockerError::IncorrectPaymentToken);
        }
        if self.proceed_status != Status::Funded {
            return Err(LockerError::NotFunded);
        }
        if self.loan.remaining_balance.lt(self.loan.draw_minimum) {
            return Err(LockerError::NotDrawn);
        }
        let left = self.loan.payments_remaining;
        if left == 0 {
            return Err(LockerError::NoPaymentsRemaining);
        }
        let total = self.loan.accrued_interest_expense.add(self.loan.remaining_balance);
        if left == 1 {
            if amount.lt(total) {
                return Err(LockerError::InsufficientPayment);
            }
            let back = if amount.gt(total) {
                Some(amount.sub(total))
            } else {
                None
            };
            self.loan.remaining_balance = Decimal::zero();
            self.loan.accrued_interest_expense = Decimal::zero();
            self.loan.payments_remaining = 0;
            self.loan.loan_status = Status::PaidOff;
            self.fee_vault = self.fee_vault.add(total);
            Ok(back)
        } else {
            let accrued = self.loan.accrued_interest_expense;
            if amount.gt(accrued) {
                let back = amount.sub(accrued);
                self.loan.accrued_interest_expense = Decimal::zero();
                self.loan.payments_remaining = left - 1;
                self.fee_vault = self.fee_vault.add(accrued);
                Ok(Some(back))
            } else {
                self.loan.accrued_interest_expense = accrued.sub(amount);
                self.fee_vault = self.fee_vault.add(amount);
                Ok(None)
            }
        }
    }

    /// The fund manager takes every fee collected.
    pub fn transfer_fees(&mut self) -> (r: Result<Decimal, LockerError>)
        requires
            old(self).wf(),
        ensures
            final(self).wf(),
            old(self).fee_vault@ <= 0 <==> r is Err,
            r is Err ==> r == Err::<Decimal, LockerError>(LockerError::NoFees) && *final(self)
                == *old(self),
            r matches Ok(fees) ==> fees == old(self).fee_vault && *final(self) == (FundingLocker {
                fee_vault: Decimal { attos: 0 },
                ..*old(self)
            }),
    {
        if !Decimal::zero().lt(self.fee_vault) {
            return Err(LockerError::NoFees);
        }
        let fees = self.fee_vault;
        self.fee_vault = Decimal::zero();
        Ok(fees)
    }

    /// The debt fund takes back the liquidity in the repay vault once the
    /// loan is paid off.
    pub fn transfer_liquidity(&mut self) -> (r: Result<Decimal, LockerError>)
        requires
            old(self).wf(),
        ensures
            final(self).wf(),
            old(self).loan.loan_status != Status::PaidOff <==> r is Err,
            r is Err ==> r == Err::<Decimal, LockerError>(LockerError::LoanActive) && *final(self)
                == *old(self),
            r matches Ok(back) ==> back == old(self).loan_repay && *final(self) == (FundingLocker {
                loan_repay: Decimal { attos: 0 },
                ..*old(self)
            }),
    {
        if self.loan.loan_status != Status::PaidOff {
            return Err(LockerError::LoanActive);
        }
        let back = self.loan_repay;
        self.loan_repay = Decimal::zero();
        Ok(back)
    }

    /// The borrower takes back all collateral once the loan is paid off.
    pub fn redeem_collateral(&mut self, badge_resource: u64) -> (r: Result<Decimal, LockerError>)
        requires
            old(self).wf(),
        ensures
            final(self).wf(),
            r is Err ==> *final(self) == *old(self),
            badge_resource != old(self).loan_nft_address ==> r == Err::<Decimal, LockerError>(
                LockerError::IncorrectLoanBadge,
            ),
            badge_resource == old(self).loan_nft_address && old(self).loan.loan_status
                != Status::PaidOff ==> r == Err::<Decimal, LockerError>(LockerError::LoanActive),
            r is Ok <==> badge_resource == old(self).loan_nft_address && old(self).loan.loan_status
                == Status::PaidOff,
            r matches Ok(back) ==> back == old(self).collateral && *final(self) == (FundingLocker {
                collateral: Decimal { attos: 0 },
                ..*old(self)
            }),
    {
        if badge_resource != self.loan_nft_address {
            return Err(LockerError::IncorrectLoanBadge);
        }
        if self.loan.loan_status != Status::PaidOff {
            return Err(LockerError::LoanActive);
        }
        let back = self.collateral;
        self.collateral = Decimal::zero();
        Ok(back)
    }

    /// Whether the drawn balance, valued at `loan_price`, against the
    /// collateral, valued at `collateral_price`, is below the required
    /// collateral percent. Only a funded and drawn loan can be checked.
    pub fn check_collateralization(&self, loan_price: Decimal, collateral_price: Decimal) -> (r:
        Result<bool, LockerError>)
        requires
            self.wf(),
            in_range(mul_attos(self.loan.remaining_balance@, loan_price@)),
            in_range(mul_attos(self.collateral@, collateral_price@)),
            mul_attos(self.collateral@, collateral_price@) != 0,
            in_range(
                div_attos(
                    mul_attos(self.loan.remaining_balance@, loan_price@),
                    mul_attos(self.collateral@, collateral_price@),
                ),
            ),
        ensures
            self.proceed_status != Status::Funded ==> r == Err::<bool, LockerError>(
                LockerError::NotFunded,
            ),
            self.proceed_status == Status::Funded && self.loan.remaining_balance@
                < self.loan.draw_minimum@ ==> r == Err::<bool, LockerError>(LockerError::NotDrawn),
            self.proceed_status == Status::Funded && self.loan.remaining_balance@
                >= self.loan.draw_minimum@ ==> r == Ok::<bool, LockerError>(
                undercollateralized(
                    self.loan.remaining_balance@,
                    loan_price@,
                    self.collateral@,
                    collateral_price@,
                    self.loan.collateral_percent@,
                ),
            ),
    {
        if self.proceed_status != Status::Funded {
            return Err(LockerError::NotFunded);
        }
        if self.loan.remaining_balance.lt(self.loan.draw_minimum) {
            return Err(LockerError::NotDrawn);
        }
        let loan_value = self.loan.remaining_balance.mul(loan_price);
        let collateral_value = self.collateral.mul(collateral_price);
        let current = loan_value.div(collateral_value);
        Ok(current.lt(self.loan.collateral_percent))
    }

    /// The fund manager liquidates an under-collateralized loan: all
    /// collateral moves to the repay vault.
    pub fn liquidate(&mut self, loan_price: Decimal, collateral_price: Decimal) -> (r: Result<
        (),
        LockerError,
    >)
        requires
            old(self).wf(),
            in_range(mul_attos(old(self).loan.remaining_balance@, loan_price@)),
            in_range(mul_attos(old(self).collateral@, collateral_price@)),
            mul_attos(old(self).collateral@, collateral_price@) != 0,
            in_range(
                div_attos(
                    mul_attos(old(self).loan.remaining_balance@, loan_price@),
                    mul_attos(old(self).collateral@, collateral_price@),
                ),
            ),
            in_range(old(self).loan_repay@ + old(self).collateral@),
        ensures
            final(self).wf(),
            r is Err ==> *final(self) == *old(self),
            old(self).proceed_status != Status::Funded ==> r == Err::<(), LockerError>(
                LockerError::NotFunded,
            ),
            old(self).proceed_status == Status::Funded && old(self).loan.remaining_balance@ < old(self).loan.draw_minimum@ ==> r == Err::<(), LockerError>(LockerError::NotDrawn),
            ({
                let under = undercollateralized(
                    old(self).loan.remaining_balance@,
                    loan_price@,
                    old(self).collateral@,
                    collateral_price@,
                    old(self).loan.collateral_percent@,
                );
                let checkable = old(self).proceed_status == Status::Funded && old(self).loan.remaining_balance@ >= old(self).loan.draw_minimum@;
                &&& checkable && !under ==> r == Err::<(), LockerError>(
                    LockerError::SufficientlyCollateralized,
                )
                &&& checkable && under ==> r is Ok && *final(self) == (FundingLocker {
                    loan_repay: Decimal {
                        attos: (old(self).loan_repay@ + old(self).collateral@) as i128,
                    },
                    collateral: Decimal { attos: 0 },
                    ..*old(self)
                })
            }),
    {
        let under = match self.check_collateralization(loan_price, collateral_price) {
            Ok(u) => u,
            Err(e) => {
                return Err(e);
            },
        };
        if !under {
            return Err(LockerError::SufficientlyCollateralized);
        }
        self.loan_repay = self.loan_repay.add(self.collateral);
        self.collateral = Decimal::zero();
        Ok(())
    }
}

/// Interest accrues in proportion to the epochs elapsed: none in no time,
/// and over `lapse` epochs `lapse` times the interest of one epoch, which
/// is `balance * rate` rounded down to whole attos.
pub proof fn interest_grows_with_epochs(balance: int, rate: int, lapse: int)
    requires
        balance >= 0,
        rate >= 0,
        lapse >= 0,
    ensures
        interest(balance, rate, 0) == 0,
        interest(balance, rate, lapse) == lapse * interest(balance, rate, 1),
        interest(balance, rate, 1) * 1_000_000_000_000_000_000 <= balance * rate,
        balance * rate < (interest(balance, rate, 1) + 1) * 1_000_000_000_000_000_000,
{
    let d: int = 1_000_000_000_000_000_000;
    assert(balance * rate >= 0) by (nonlinear_arith)
        requires
            balance >= 0,
            rate >= 0,
    ;
    lemma_floor_bounds(balance * rate, d);
    let m = (balance * rate) / d;
    assert(mul_attos(balance, rate) == m);
    assert forall|l: int| l >= 0 implies #[trigger] interest(balance, rate, l) == m * l by {
        assert(m * (l * d) == d * (m * l)) by (nonlinear_arith);
        assert(m * l >= 0) by (nonlinear_arith)
            requires
                m >= 0,
                l >= 0,
        ;
        lemma_floor_bounds(m * (l * d), d);
        vstd::arithmetic::div_mod::lemma_div_multiples_vanish(m * l, d);
    }
    assert(interest(balance, rate, 0) == m * 0);
    assert(interest(balance, rate, 1) == m * 1);
    assert(interest(balance, rate, lapse) == m * lapse);
    assert(m * lapse == lapse * m) by (nonlinear_arith);
}

/// A loan is found undercollateralized exactly when the loan's value
/// (balance times its price) falls below the required percent of the
/// collateral's value (collateral times its price): the ratio of the two
/// is below the percent.
pub proof fn undercollateralized_is_ratio_below_percent(
    balance: int,
    loan_price: int,
    collateral: int,
    collateral_price: int,
    percent: int,
)
    requires
        mul_attos(balance, loan_price) >= 0,
        mul_attos(collateral, collateral_price) > 0,
    ensures
        undercollateralized(balance, loan_price, collateral, collateral_price, percent)
            <==> mul_attos(balance, loan_price) * 1_000_000_000_000_000_000 < percent * mul_attos(
            collateral,
            collateral_price,
        ),
{
    let lv = mul_attos(balance, loan_price);
    let cv = mul_attos(collateral, collateral_price);
    let d: int = 1_000_000_000_000_000_000;
    assert(lv * d >= 0) by (nonlinear_arith)
        requires
            lv >= 0,
            d > 0,
    ;
    lemma_floor_bounds(lv * d, cv);
    let q = (lv * d) / cv;
    assert(div_attos(lv, cv) == q);
    if q < percent {
        assert(lv * d < percent * cv) by (nonlinear_arith)
            requires
                lv * d < q * cv + cv,
                q + 1 <= percent,
                cv > 0,
        ;
    } else {
        assert(lv * d >= percent * cv) by (nonlinear_arith)
            requires
                q * cv <= lv * d,
                q >= percent,
                cv > 0,
        ;
    }
}

} // verus!
