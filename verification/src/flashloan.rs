//! A flash lender: it lends from its liquidity against a promise token
//! that records the amount due (the loan plus 0.1%), and takes the
//! repayment back into its liquidity when the promise is returned.
use vstd::prelude::*;
use crate::decimal::{Decimal, in_range, mul_attos};

verus! {

/// The data of a loan's promise token.
#[derive(Clone, Copy, Debug, PartialEq, Eq, Structural)]
pub struct LoanDue {
    pub amount_due: Decimal,
}

/// Why the lender refused a request.
#[derive(Clone, Copy, Debug, PartialEq, Eq, Structural)]
pub enum FlashLoanError {
    /// A loan must not be negative.
    InvalidAmount,
    /// The liquidity does not cover the loan.
    InsufficientLiquidity,
    /// The promise token is not this lender's.
    WrongLoanTerms,
    /// The repayment is below the amount due.
    InsufficientRepayment,
    /// The liquidity would leave the decimal range.
    Overflow,
}

/// Attos of the flash loan fee factor 1.001.
pub open spec fn flash_factor() -> int {
    1_001_000_000_000_000_000
}

/// The amount due on a loan of `amount`: the loan times 1.001.
pub open spec fn amount_due_spec(amount: int) -> int {
    mul_attos(amount, flash_factor())
}

/// The lender: its liquidity and the resource of its promise tokens.
#[derive(Clone, Copy, Debug, PartialEq, Eq, Structural)]
pub struct FlashLoan {
    pub liquidity: Decimal,
    pub transient_resource: u64,
}

impl FlashLoan {
    /// A lender holding `initial_liquidity`, whose promise tokens are of
    /// resource `transient_resource`.
    pub fn new(initial_liquidity: Decimal, transient_resource: u64) -> (r: FlashLoan)
        ensures
            r.liquidity == initial_liquidity,
            r.transient_resource == transient_resource,
    {
        FlashLoan { liquidity: initial_liquidity, transient_resource }
    }

    /// Lends `loan_amount`: returns the loan and the terms of its promise
    /// token. Refused for a negative amount or one above the liquidity.
    pub fn take_loan(&mut self, loan_amount: Decimal) -> (r: Result<(Decimal, LoanDue), FlashLoanError>)
        ensures
            loan_amount@ < 0 ==> r == Err::<(Decimal, LoanDue), FlashLoanError>(
                FlashLoanError::InvalidAmount,
            ),
            loan_amount@ >= 0 && loan_amount@ > old(self).liquidity@ ==> r == Err::<
                (Decimal, LoanDue),
                FlashLoanError,
            >(FlashLoanError::InsufficientLiquidity),
            0 <= loan_amount@ <= old(self).liquidity@ && !in_range(amount_due_spec(loan_amount@))
                ==> r == Err::<(Decimal, LoanDue), FlashLoanError>(FlashLoanError::Overflow),
            r is Ok <==> 0 <= loan_amount@ <= old(self).liquidity@ && in_range(
                amount_due_spec(loan_amount@),
            ),
            r is Err ==> *final(self) == *old(self),
            r matches Ok(x) ==> {
                &&& x.0 == loan_amount
                &&& x.1.amount_due@ == amount_due_spec(loan_amount@)
                &&& final(self).liquidity@ == old(self).liquidity@ - loan_amount@
                &&& final(self).transient_resource == old(self).transient_resource
            },
    {
        if loan_amount.lt(Decimal::zero()) {
            return Err(FlashLoanError::InvalidAmount);
        }
        if loan_amount.gt(self.liquidity) {
            return Err(FlashLoanError::InsufficientLiquidity);
        }
        let due = match loan_amount.checked_mul(Decimal::from_attos(1_001_000_000_000_000_000i128)) {
            Some(d) => d,
            None => {
                return Err(FlashLoanError::Overflow);
            },
        };
        self.liquidity = self.liquidity.sub(loan_amount);
        Ok((loan_amount, LoanDue { amount_due: due }))
    }

    /// Takes back a loan: `loan_repayment` tokens against the promise token
    /// of resource `terms_resource` with data `terms`. Refused for another
    /// lender's promise or a repayment below the amount due.
    pub fn repay_loan(&mut self, loan_repayment: Decimal, terms_resource: u64, terms: LoanDue) -> (r:
        Result<(), FlashLoanError>)
        ensures
            terms_resource != old(self).transient_resource ==> r == Err::<(), FlashLoanError>(
                FlashLoanError::WrongLoanTerms,
            ),
            terms_resource == old(self).transient_resource && loan_repayment@
                < terms.amount_due@ ==> r == Err::<(), FlashLoanError>(
                FlashLoanError::InsufficientRepayment,
            ),
            terms_resource == old(self).transient_resource && loan_repayment@
                >= terms.amount_due@ && !in_range(old(self).liquidity@ + loan_repayment@) ==> r
                == Err::<(), FlashLoanError>(FlashLoanError::Overflow),
            r is Ok <==> terms_resource == old(self).transient_resource && loan_repayment@
                >= terms.amount_due@ && in_range(old(self).liquidity@ + loan_repayment@),
            r is Err ==> *final(self) == *old(self),
            r is Ok ==> final(self).liquidity@ == old(self).liquidity@ + loan_repayment@
                && final(self).transient_resource == old(self).transient_resource,
    {
        if terms_resource != self.transient_resource {
            return Err(FlashLoanError::WrongLoanTerms);
        }
        if loan_repayment.lt(terms.amount_due) {
            return Err(FlashLoanError::InsufficientRepayment);
        }
        match self.liquidity.checked_add(loan_repayment) {
            Some(l) => {
                self.liquidity = l;
                Ok(())
            },
            None => Err(FlashLoanError::Overflow),
        }
    }
}

/// A non-negative loan repaid with at least its amount due never shrinks
/// the lender's liquidity: the amount due is never below the loan.
pub proof fn flash_loan_repaid_keeps_liquidity(liquidity: int, loan: int, repayment: int)
    requires
        0 <= loan <= liquidity,
        repayment >= amount_due_spec(loan),
    ensures
        amount_due_spec(loan) >= loan,
        liquidity - loan + repayment >= liquidity,
{
    assert(loan * flash_factor() == loan * 1_000_000_000_000_000_000 + loan * 1_000_000_000_000_000)
        by (nonlinear_arith);
    assert((loan * 1_000_000_000_000_000_000 + loan * 1_000_000_000_000_000) / 1_000_000_000_000_000_000 >= loan)
        by (nonlinear_arith)
        requires
            loan >= 0,
    ;
}

} // verus!
