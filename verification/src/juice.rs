//! The JUICE token component: it pays JUICE incentives for fees, runs the
//! lottery, and pays out XRD rewards to JUICE holders.
//!
//! A request that fails a check or overflows is refused with an
//! error and leaves the component unchanged.
use vstd::prelude::*;
use crate::decimal::{Decimal, in_range, mul_attos, div_attos};

verus! {

/// Why the JUICE component refused a request.
#[derive(Clone, Copy, Debug, PartialEq, Eq, Structural)]
pub enum JuiceError {
    /// The JUICE vault does not hold the amount asked for.
    NotEnoughJuice,
    /// No lottery ticket has been sold.
    NoTickets,
    /// The caller is not the lottery winner.
    NotTheWinner,
}

/// JUICE tokens ever created: one billion.
pub open spec fn juice_supply() -> int {
    1_000_000_000_000_000_000_000_000_000
}

/// Epochs between two reward payouts.
pub const PAYOUT_INTERVAL: u64 = 500;

/// The component's vaults and lottery state; tickets and the winner are
/// resource ids.
#[derive(Debug)]
pub struct Juice {
    pub juice_vault: Decimal,
    pub xrd_vault: Decimal,
    pub owner_vault: Decimal,
    pub lottery_vault: Decimal,
    pub lottery_tickets: Vec<u64>,
    pub lottery_winner: u64,
    pub access_badge: u64,
    pub reward_epoch: u64,
}

/// The XRD paid to a holder of `juice` JUICE, and as much again to the
/// owner: half the holder's share of the XRD vault, the share being the
/// holder's JUICE over the JUICE handed out.
pub open spec fn payout(juice: int, juice_vault: int, xrd: int) -> int {
    div_attos(
        mul_attos(div_attos(juice, juice_supply() - juice_vault), xrd),
        2_000_000_000_000_000_000,
    )
}

impl Juice {
    /// A component holding all one billion JUICE, empty XRD vaults and no
    /// tickets; the admin badge is the default winner.
    pub fn instantiate_juice(access_badge: u64, epoch: u64) -> (r: Juice)
        ensures
            r.juice_vault@ == juice_supply(),
            r.xrd_vault@ == 0 && r.owner_vault@ == 0 && r.lottery_vault@ == 0,
            r.lottery_tickets@.len() == 0,
            r.lottery_winner == access_badge && r.access_badge == access_badge,
            r.reward_epoch == epoch,
    {
        Juice {
            juice_vault: Decimal::from_u64(1_000_000_000),
            xrd_vault: Decimal::zero(),
            owner_vault: Decimal::zero(),
            lottery_vault: Decimal::zero(),
            lottery_tickets: Vec::new(),
            lottery_winner: access_badge,
            access_badge,
            reward_epoch: epoch,
        }
    }

    /// Takes `amount` JUICE from the vault.
    pub fn withdraw(&mut self, amount: Decimal) -> (r: Result<Decimal, JuiceError>)
        requires
            amount@ >= 0,
        ensures
            amount@ > old(self).juice_vault@ <==> r is Err,
            r is Err ==> r == Err::<Decimal, JuiceError>(JuiceError::NotEnoughJuice) && final(
                self).juice_vault == old(self).juice_vault,
            r is Ok ==> r == Ok::<Decimal, JuiceError>(amount) && final(self).juice_vault@ == old(
                self).juice_vault@ - amount@,
            final(self).xrd_vault == old(self).xrd_vault,
            final(self).owner_vault == old(self).owner_vault,
            final(self).lottery_vault == old(self).lottery_vault,
            final(self).lottery_tickets@ == old(self).lottery_tickets@,
            final(self).lottery_winner == old(self).lottery_winner,
            final(self).reward_epoch == old(self).reward_epoch,
    {
        if amount.gt(self.juice_vault) {
            return Err(JuiceError::NotEnoughJuice);
        }
        self.juice_vault = self.juice_vault.sub(amount);
        Ok(amount)
    }

    /// Receives `xrd` in fees and returns an incentive of a fifth as much JUICE.
    pub fn get_fee(&mut self, xrd: Decimal) -> (r: Result<Decimal, JuiceError>)
        requires
            xrd@ >= 0,
            in_range(old(self).xrd_vault@ + xrd@),
        ensures
            ({
                let incentive = div_attos(xrd@, 5_000_000_000_000_000_000);
                &&& incentive > old(self).juice_vault@ <==> r is Err
                &&& r is Err ==> r == Err::<Decimal, JuiceError>(JuiceError::NotEnoughJuice)
                    && final(self).juice_vault == old(self).juice_vault && final(self).xrd_vault
                    == old(self).xrd_vault
                &&& r matches Ok(j) ==> j@ == incentive && final(self).juice_vault@ == old(
                    self).juice_vault@ - incentive && final(self).xrd_vault@ == old(
                    self).xrd_vault@ + xrd@
            }),
            final(self).owner_vault == old(self).owner_vault,
            final(self).lottery_vault == old(self).lottery_vault,
            final(self).lottery_tickets@ == old(self).lottery_tickets@,
    {
        proof {
            assert(xrd@ * 1_000_000_000_000_000_000 >= 0) by (nonlinear_arith)
                requires
                    xrd@ >= 0,
            ;
            assert((xrd@ * 1_000_000_000_000_000_000) / 5_000_000_000_000_000_000 <= xrd@)
                by (nonlinear_arith)
                requires
                    xrd@ >= 0,
            ;
        }
        let incentive = xrd.div(Decimal::from_u64(5));
        if incentive.gt(self.juice_vault) {
            return Err(JuiceError::NotEnoughJuice);
        }
        self.xrd_vault = self.xrd_vault.add(xrd);
        self.juice_vault = self.juice_vault.sub(incentive);
        Ok(incentive)
    }

    /// Stores a sold lottery ticket and its price in the pot.
    pub fn receive_lottery_ticket(&mut self, xrd: Decimal, ticket: u64)
        requires
            in_range(old(self).lottery_vault@ + xrd@),
        ensures
            final(self).lottery_vault@ == old(self).lottery_vault@ + xrd@,
            final(self).lottery_tickets@ == old(self).lottery_tickets@.push(ticket),
            final(self).juice_vault == old(self).juice_vault,
            final(self).xrd_vault == old(self).xrd_vault,
            final(self).lottery_winner == old(self).lottery_winner,
    {
        self.lottery_vault = self.lottery_vault.add(xrd);
        self.lottery_tickets.push(ticket);
    }

    /// Draws the winner among the tickets sold with the random number
    /// `random` (the ticket at `random` modulo the number of tickets), then
    /// clears the tickets.
    pub fn run_lottery(&mut self, random: u128) -> (r: Result<(), JuiceError>)
        ensures
            old(self).lottery_tickets@.len() == 0 <==> r is Err,
            r is Err ==> r == Err::<(), JuiceError>(JuiceError::NoTickets)
                && final(self).lottery_tickets@ == old(self).lottery_tickets@ && final(
                self).lottery_winner == old(self).lottery_winner,
            r is Ok ==> final(self).lottery_winner == old(self).lottery_tickets@[(random as int)
                % (old(self).lottery_tickets@.len() as int)] && final(self).lottery_tickets@.len()
                == 0,
            final(self).lottery_vault == old(self).lottery_vault,
            final(self).juice_vault == old(self).juice_vault,
            final(self).xrd_vault == old(self).xrd_vault,
    {
        let n = self.lottery_tickets.len();
        if n == 0 {
            return Err(JuiceError::NoTickets);
        }
        let idx = (random % (n as u128)) as usize;
        self.lottery_winner = self.lottery_tickets[idx];
        self.lottery_tickets = Vec::new();
        Ok(())
    }

    /// Pays the whole pot to the winner `user_id`; the winner goes back to
    /// the admin badge.
    pub fn withdraw_lottery(&mut self, user_id: u64) -> (r: Result<Decimal, JuiceError>)
        ensures
            old(self).lottery_winner != user_id <==> r is Err,
            r is Err ==> r == Err::<Decimal, JuiceError>(JuiceError::NotTheWinner) && final(
                self).lottery_vault == old(self).lottery_vault && final(self).lottery_winner
                == old(self).lottery_winner,
            r is Ok ==> r == Ok::<Decimal, JuiceError>(old(self).lottery_vault) && final(
                self).lottery_vault@ == 0 && final(self).lottery_winner == old(self).access_badge,
            final(self).lottery_tickets@ == old(self).lottery_tickets@,
            final(self).juice_vault == old(self).juice_vault,
            final(self).xrd_vault == old(self).xrd_vault,
    {
        if self.lottery_winner != user_id {
            return Err(JuiceError::NotTheWinner);
        }
        self.lottery_winner = self.access_badge;
        let pot = self.lottery_vault;
        self.lottery_vault = Decimal::zero();
        Ok(pot)
    }

    /// Pays out XRD rewards to a holder of `juice` JUICE at `epoch`, at most
    /// once every 500 epochs: the owner receives `payout` and the holder as
    /// much again, both from the XRD vault. Returns the holder's XRD (zero
    /// when the interval has not passed); the JUICE stays with the holder.
    pub fn payout_xrd(&mut self, juice: Decimal, epoch: u64) -> (r: Decimal)
        requires
            old(self).reward_epoch + 500 <= u64::MAX,
            old(self).reward_epoch + 500 <= epoch ==> {
                let given = juice_supply() - old(self).juice_vault@;
                let p = payout(juice@, old(self).juice_vault@, old(self).xrd_vault@);
                &&& given != 0
                &&& in_range(given)
                &&& in_range(div_attos(juice@, given))
                &&& in_range(mul_attos(div_attos(juice@, given), old(self).xrd_vault@))
                &&& 0 <= p
                &&& 2 * p <= old(self).xrd_vault@
                &&& in_range(old(self).owner_vault@ + p)
            },
        ensures
            ({
                let due = old(self).reward_epoch + 500 <= epoch;
                let p = payout(juice@, old(self).juice_vault@, old(self).xrd_vault@);
                &&& due ==> r@ == p && final(self).owner_vault@ == old(self).owner_vault@ + p
                    && final(self).xrd_vault@ == old(self).xrd_vault@ - 2 * p && final(
                    self).reward_epoch == epoch
                &&& !due ==> r@ == 0 && final(self).owner_vault == old(self).owner_vault && final(
                    self).xrd_vault == old(self).xrd_vault && final(self).reward_epoch == old(
                    self).reward_epoch
            }),
            final(self).juice_vault == old(self).juice_vault,
            final(self).lottery_vault == old(self).lottery_vault,
            final(self).lottery_tickets@ == old(self).lottery_tickets@,
    {
        if epoch >= self.reward_epoch + PAYOUT_INTERVAL {
            let given = Decimal::from_u64(1_000_000_000).sub(self.juice_vault);
            let share = juice.div(given);
            let p = share.mul(self.xrd_vault).div(Decimal::from_u64(2));
            self.owner_vault = self.owner_vault.add(p);
            self.xrd_vault = self.xrd_vault.sub(p);
            self.reward_epoch = epoch;
            self.xrd_vault = self.xrd_vault.sub(p);
            p
        } else {
            Decimal::zero()
        }
    }
}

} // verus!
